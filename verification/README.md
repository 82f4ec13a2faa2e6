# boxcar

Boxcar is a framework for remote procedure calls that do not depend on the connection they were made
on. A server runs every request as a task. Any client can start a task and come back later for the
result, for as long as the server runs. Tasks can claim resources of the server, and servers can be
grouped into clusters.

## Layout

- `src/` is the library, verified with Verus: what clients and servers know and decide.
  - `message`, `utils`: messages, and frames on the wire
  - `rcm`: the resource manager
  - `executor`, `server`: the task queue of a server, and its answers
  - `client`: the client's side of a connection
  - `transport`: an endpoint that exchanges frames only
  - `registry`, `cluster`: instances of services, and clusters of servers
  - `laws`: what holds of a pool and of a server over their whole lives
  - `names`, `slots`, `queue`: maps keyed by text, slots handed out at random, queues
- `app/` puts the library on web sockets and etcd.
- `tests/` are the tests of the library.

## Messages

```text
 + RpcReq               Client ---> Server  (req/rsp)
   ok   RpcReqSlot
   -    ServerError, ResourceError

 + RpcRslt              Server ---> Client  (streaming)

 + RpcReqRslt           Client ---> Server  (req/rsp)
   ok   RpcRslt
   -    ServerError

 + Sub                  Client ---> Server
   ok   RpcRslt
   -    ServerError

 + UnSub                Client ---> Server  (req/rsp)
   ok   SubOpFin

 + Hangup               Client ---> Server
   ok   Hangup

 + Ping                 Client ---> Server  (req/rsp)
   ok   Pong
```

## Registrations

```text
<keyspace>/<service name>               Base Tree
    /<uuid>                             Individual Service Entry
```
