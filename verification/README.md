# rigloop

A session around an agent that keeps its conversation. One owner appends to the journal of a
conversation. Signals from outside wait in an inbox until a commit acknowledges them. A turn goes
on only when what it has done so far is stored, and an uncertain write stops the session.

```
src/       the rules, as Verus verifies them
  message, journal, history     messages, and what a valid conversation is
  store, durable                what a store keeps, in memory
  queue                         which waiting signal goes first
  session, protocol, actor      a session as a machine from events to requests
  repair, partial               mending missing results; a turn while it is streamed
  agent_loop, api, loop_rules, engine
                                a loop that owns the queue between prompts
  checkpoint, manager           what a durable agent writes, and when it runs
  context                       which compacted histories may be sent
  printing                      what is shown of a stream
  identity, text                ids, clocks and quoting
  protocol_laws, loop_laws, turn_laws, repair_laws, tail_laws
                                what holds of several steps together
app/       drivers that carry out the requests: agents, stores, channels and timers
tests/     scripted runs of the machines
```

The machines hold no channel, no clock and no model. `Actor`, `Runner` and `DurableManager` are
each handed what happened and answer with what is to be done; the drivers in `app/` do it. Times
are nanoseconds on the driver's clock. Message parts that no rule looks into are kept as JSON text.
