# fawkes

A client for Phoenix channels over websockets, with a verified core.

- `src/` is the core: the numbering and the text of messages, the routing of
  replies, heartbeats and events, the life of a connection, and the course of a
  subscription. It is written in Verus. `laws.rs` states what holds of it as a
  whole.
- `app/` runs the core on `tokio` and `tokio-tungstenite`: it opens the socket,
  polls the socket, the timer and the queues, reads JSON, and logs.
- `tests/` runs the core on concrete messages.

A connection is told what happened and answers what to do. Three tasks take
turns on it: taking in subscriptions, sending, and receiving. Every message gets
the next number as its reference; a reply is handed to the request with its
reference, and an event, which has none, to the subscriptions of its topic and
name.

```rust
let (client, connection) = Client::connect(url).await?;
tokio::spawn(connection);
let mut prices: Subscription<Price> = client.subscribe("ticker", "price").await?;
while let Some(price) = prices.next().await {
    println!("{:?}", price?);
}
```
