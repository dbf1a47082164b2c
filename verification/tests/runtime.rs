use elfo::addr::Addr;
use elfo::book::{ActorObject, ActorStatus, AddressBook};
use elfo::config::{AnyConfig, ConfigError, ConfigValue};
use elfo::context::{Context, ResolveOutcome};
use elfo::demux::Demux;
use elfo::envelope::{Envelope, MessageKind, ResponseToken};
use elfo::errors::{RequestError, SendError, TryRecvError, TrySendError};
use elfo::mailbox::Mailbox;
use elfo::messages::Message;
use elfo::routers::{RouteRule, Router};
use elfo::supervisor::{RouteReport, Supervisor};

fn test_config(capacity: u32) -> ConfigValue {
    ConfigValue {
        mailbox_capacity: capacity,
        attempt_interval_ms: 500,
        lz4: false,
        listen: vec![],
        predefined: vec![],
    }
}

fn new_actor(book: &mut AddressBook, capacity: usize) -> Addr {
    let addr = book.vacant_entry();
    let object = ActorObject::new(addr, capacity);
    book.insert(addr, object);
    addr
}

fn ping(n: u64) -> Message {
    Message::Ping { payload: n }
}

#[test]
fn mailbox_delivers_in_send_order() {
    let mut mb = Mailbox::new(4);
    mb.try_send(Envelope::new(ping(1), MessageKind::Regular { sender: Addr::null() }, 10))
        .unwrap();
    mb.try_send(Envelope::new(ping(2), MessageKind::Regular { sender: Addr::null() }, 11))
        .unwrap();
    mb.try_send(Envelope::new(ping(3), MessageKind::Regular { sender: Addr::null() }, 12))
        .unwrap();
    assert_eq!(mb.try_recv().unwrap().message, ping(1));
    assert_eq!(mb.try_recv().unwrap().message, ping(2));
    assert_eq!(mb.try_recv().unwrap().message, ping(3));
    assert_eq!(mb.try_recv().unwrap_err(), TryRecvError::Empty);
}

#[test]
fn mailbox_full_and_closed_errors() {
    let mut mb = Mailbox::new(1);
    mb.try_send(Envelope::new(ping(1), MessageKind::Regular { sender: Addr::null() }, 0))
        .unwrap();
    let r = mb.try_send(Envelope::new(ping(2), MessageKind::Regular { sender: Addr::null() }, 0));
    match r {
        Err(TrySendError::Full(e)) => assert_eq!(e.message, ping(2)),
        other => panic!("expected Full, got {:?}", other),
    }
    assert!(mb.close());
    assert!(!mb.close());
    let r = mb.try_send(Envelope::new(ping(3), MessageKind::Regular { sender: Addr::null() }, 0));
    match r {
        Err(TrySendError::Closed(e)) => assert_eq!(e.message, ping(3)),
        other => panic!("expected Closed, got {:?}", other),
    }
    // Close drains what is queued, then reports the end.
    assert_eq!(mb.try_recv().unwrap().message, ping(1));
    assert_eq!(mb.try_recv().unwrap_err(), TryRecvError::Closed);
}

#[test]
fn send_to_empty_recipient_set_returns_the_message() {
    let mut book = AddressBook::new();
    let client = new_actor(&mut book, 4);
    let ctx = Context::new(Demux::new()).with_addr(client);
    let r = ctx.send(&mut book, ping(7));
    match r {
        Err(SendError(m)) => assert_eq!(m, ping(7)),
        other => panic!("expected Closed, got {:?}", other),
    }
}

#[test]
fn send_to_unknown_address_fails_with_the_message() {
    let mut book = AddressBook::new();
    let client = new_actor(&mut book, 4);
    let ctx = Context::new(Demux::new()).with_addr(client);
    let r = ctx.send_to(&mut book, Addr::from_slot(999), Message::Value { tag: 5, value: 6 });
    match r {
        Err(SendError(m)) => assert_eq!(m, Message::Value { tag: 5, value: 6 }),
        other => panic!("expected Closed, got {:?}", other),
    }
}

#[test]
fn respond_on_forgotten_token_is_a_no_op() {
    let mut book = AddressBook::new();
    let responder = new_actor(&mut book, 4);
    let ctx = Context::new(Demux::new()).with_addr(responder);
    let token = ResponseToken::forgotten_token();
    assert!(token.is_forgotten());
    ctx.respond(&mut book, token, Message::Pong { payload: 3 });
    // The book is untouched: nothing was reserved or delivered.
    assert!(book.try_recv_at(responder).is_err());
}

#[test]
fn echo_request_resolves_to_the_response() {
    let mut book = AddressBook::new();
    let client = new_actor(&mut book, 4);
    let echo = new_actor(&mut book, 4);
    let mut demux = Demux::new();
    demux.subscribe(Message::Ping { payload: 0 }.ltid(), echo);
    let client_ctx = Context::new(demux).with_addr(client);
    let echo_ctx = Context::new(Demux::new()).with_addr(echo);

    let pending = client_ctx.request(ping(7)).resolve(&mut book);
    let id = match pending {
        ResolveOutcome::Pending(id) => id,
        other => panic!("expected Pending, got {:?}", other),
    };
    // Nothing resolved yet: the echo actor has not answered.
    assert!(client_ctx.take_any(&mut book, id).is_none());

    let env = book.try_recv_at(echo).unwrap();
    assert_eq!(env.message, ping(7));
    match env.kind {
        MessageKind::RequestAny(token) => {
            echo_ctx.respond(&mut book, token, Message::Pong { payload: 7 });
        },
        other => panic!("expected a request kind, got {:?}", other),
    }

    let got = client_ctx.take_any(&mut book, id).unwrap();
    assert_eq!(got.unwrap(), Message::Pong { payload: 7 });
}

#[test]
fn request_from_equals_send_to_plus_wait() {
    let mut book = AddressBook::new();
    let client = new_actor(&mut book, 4);
    let server = new_actor(&mut book, 4);
    let client_ctx = Context::new(Demux::new()).with_addr(client);
    let server_ctx = Context::new(Demux::new()).with_addr(server);

    // The direct send deposits the same message under a regular kind.
    client_ctx.send_to(&mut book, server, ping(9)).unwrap();
    let direct = book.try_recv_at(server).unwrap();
    assert_eq!(direct.message, ping(9));

    // The request deposits the same message, the kind carrying the token.
    let id = match client_ctx.request(ping(9)).from(server).resolve(&mut book) {
        ResolveOutcome::Pending(id) => id,
        other => panic!("expected Pending, got {:?}", other),
    };
    let env = book.try_recv_at(server).unwrap();
    assert_eq!(env.message, direct.message);
    match env.kind {
        MessageKind::RequestAny(token) => {
            server_ctx.respond(&mut book, token, Message::Pong { payload: 9 })
        },
        other => panic!("expected a request kind, got {:?}", other),
    }
    let got = client_ctx.take_any(&mut book, id).unwrap();
    assert_eq!(got.unwrap(), Message::Pong { payload: 9 });
}

#[test]
fn supervisor_spawns_exactly_one_actor_per_key() {
    let mut book = AddressBook::new();
    let group = new_actor(&mut book, 8);
    let mut router = Router::new(RouteRule::Broadcast);
    router.rule(Message::Value { tag: 0, value: 0 }.ltid(), RouteRule::ByValue);
    let sup_ctx = Context::new(Demux::new()).with_addr(group).with_group(group);
    let mut sup = Supervisor::new(sup_ctx, b"workers".to_vec(), router);
    sup.set_config(test_config(4));

    let env1 = Envelope::new(
        Message::Value { tag: 1, value: 42 },
        MessageKind::Regular { sender: Addr::null() },
        0,
    );
    let r1 = sup.handle(&mut book, env1);
    assert_eq!(r1, RouteReport::Done);
    let addr1 = sup.lookup(42).expect("spawned on first use");

    let env2 = Envelope::new(
        Message::Value { tag: 2, value: 42 },
        MessageKind::Regular { sender: Addr::null() },
        0,
    );
    let r2 = sup.handle(&mut book, env2);
    assert_eq!(r2, RouteReport::Done);
    let addr2 = sup.lookup(42).expect("still there");
    assert_eq!(addr1, addr2);

    // Both envelopes landed in the single instance's mailbox, in order.
    let e1 = book.try_recv_at(addr1).unwrap();
    let e2 = book.try_recv_at(addr1).unwrap();
    assert_eq!(e1.message, Message::Value { tag: 1, value: 42 });
    assert_eq!(e2.message, Message::Value { tag: 2, value: 42 });
}

#[test]
fn fan_out_collects_one_entry_per_recipient() {
    let mut book = AddressBook::new();
    let group = new_actor(&mut book, 8);
    let client = new_actor(&mut book, 8);
    let mut router = Router::new(RouteRule::Broadcast);
    router.rule(Message::Value { tag: 0, value: 0 }.ltid(), RouteRule::ByValue);
    let sup_ctx = Context::new(Demux::new()).with_addr(group).with_group(group);
    let mut sup = Supervisor::new(sup_ctx, b"workers".to_vec(), router);
    sup.set_config(test_config(4));

    // Spawn three instances under keys 1, 2, 3 and drain their first message.
    for k in 1..=3u64 {
        let env = Envelope::new(
            Message::Value { tag: 0, value: k },
            MessageKind::Regular { sender: Addr::null() },
            0,
        );
        assert_eq!(sup.handle(&mut book, env), RouteReport::Done);
        let a = sup.lookup(k).unwrap();
        book.try_recv_at(a).unwrap();
    }

    // The client requests all responses; the envelope reaches the group.
    let mut demux = Demux::new();
    demux.subscribe(Message::Ping { payload: 0 }.ltid(), group);
    let client_ctx = Context::new(demux).with_addr(client);
    let id = match client_ctx.request(ping(0)).all().resolve(&mut book) {
        ResolveOutcome::Pending(id) => id,
        other => panic!("expected Pending, got {:?}", other),
    };
    let env = book.try_recv_at(group).unwrap();
    assert_eq!(sup.handle(&mut book, env), RouteReport::Done);

    // Two instances answer; the one under key 2 drops its token.
    let mut answered = 0u64;
    for k in 1..=3u64 {
        let a = sup.lookup(k).unwrap();
        let env = book.try_recv_at(a).unwrap();
        assert_eq!(env.message, ping(0));
        let actor_ctx = Context::new(Demux::new()).with_addr(a);
        match env.kind {
            MessageKind::RequestAll(token) => {
                if k == 2 {
                    actor_ctx.forget_token(&mut book, token);
                } else {
                    answered += 1;
                    actor_ctx.respond(&mut book, token, Message::Pong { payload: k });
                }
            },
            other => panic!("expected a fan-out kind, got {:?}", other),
        }
    }
    assert_eq!(answered, 2);

    let results = client_ctx.take_all(&mut book, id).unwrap();
    assert_eq!(results.len(), 3);
    let oks = results.iter().filter(|r| r.is_ok()).count();
    let ignored = results
        .iter()
        .filter(|r| matches!(r, Err(RequestError::Ignored)))
        .count();
    assert_eq!(oks, 2);
    assert_eq!(ignored, 1);
}

#[test]
fn backpressure_surfaces_waiters_and_keeps_order() {
    let mut book = AddressBook::new();
    let group = new_actor(&mut book, 8);
    let mut router = Router::new(RouteRule::Broadcast);
    router.rule(Message::Value { tag: 0, value: 0 }.ltid(), RouteRule::ByValue);
    let sup_ctx = Context::new(Demux::new()).with_addr(group).with_group(group);
    let mut sup = Supervisor::new(sup_ctx, b"workers".to_vec(), router);
    sup.set_config(test_config(1));

    // Instance one holds M1 and is full; instance two is drained and free.
    let m1 = Message::Value { tag: 1, value: 1 };
    let env = Envelope::new(m1.dup(), MessageKind::Regular { sender: Addr::null() }, 0);
    assert_eq!(sup.handle(&mut book, env), RouteReport::Done);
    let full_addr = sup.lookup(1).unwrap();

    let env = Envelope::new(
        Message::Value { tag: 0, value: 2 },
        MessageKind::Regular { sender: Addr::null() },
        0,
    );
    assert_eq!(sup.handle(&mut book, env), RouteReport::Done);
    let free_addr = sup.lookup(2).unwrap();
    book.try_recv_at(free_addr).unwrap();

    // A broadcast M2 reaches the free instance and queues a waiter for the
    // full one.
    let m2 = ping(2);
    let env = Envelope::new(m2.dup(), MessageKind::Regular { sender: Addr::null() }, 0);
    let report = sup.handle(&mut book, env);
    let (someone, mut waiters) = match report {
        RouteReport::WaitAll(someone, waiters) => (someone, waiters),
        other => panic!("expected WaitAll, got {:?}", other),
    };
    assert!(someone);
    assert_eq!(waiters.len(), 1);
    let (waiter_addr, waiting_env) = waiters.pop().unwrap();
    assert_eq!(waiter_addr, full_addr);
    assert_eq!(waiting_env.message, m2);

    // After one drain the waiter completes; the mailbox order is M1, M2.
    let first = book.try_recv_at(full_addr).unwrap();
    assert_eq!(first.message, m1);
    book.try_send_at(waiter_addr, waiting_env).unwrap();
    let second = book.try_recv_at(full_addr).unwrap();
    assert_eq!(second.message, m2);
}

#[test]
fn config_reject_answers_the_token_and_reaches_no_actor() {
    let mut book = AddressBook::new();
    let group = new_actor(&mut book, 8);
    let client = new_actor(&mut book, 8);
    let router = Router::new(RouteRule::Broadcast);
    let sup_ctx = Context::new(Demux::new()).with_addr(group).with_group(group);
    let mut sup = Supervisor::new(sup_ctx, b"workers".to_vec(), router);
    sup.set_config(test_config(4));

    let token = book.new_request_at(client, false).unwrap();
    let id = token.request_id;
    let garbage = AnyConfig::from_blob(vec![0xde, 0xad]);
    let env = Envelope::new(
        Message::ValidateConfig { config: garbage },
        MessageKind::RequestAny(token),
        0,
    );
    let report = sup.handle(&mut book, env);
    assert_eq!(report, RouteReport::Done);
    // No actor was spawned, so nobody saw the envelope.
    assert!(sup.lookup(0).is_none());

    let client_ctx = Context::new(Demux::new()).with_addr(client);
    let got = client_ctx.take_any(&mut book, id).unwrap().unwrap();
    assert_eq!(got, Message::ConfigRejected { reason: ConfigError::Malformed });
}

#[test]
fn update_config_installs_and_responds_ok() {
    let mut book = AddressBook::new();
    let actor = new_actor(&mut book, 8);
    let requester = new_actor(&mut book, 8);
    let mut ctx = Context::new(Demux::new()).with_addr(actor);

    let value = test_config(9);
    let blob = elfo::config::encode_config(&value);
    let token = book.new_request_at(requester, false).unwrap();
    let id = token.request_id;
    let env = Envelope::new(
        Message::UpdateConfig { config: AnyConfig::from_blob(blob) },
        MessageKind::RequestAny(token),
        77,
    );
    book.try_send_at(actor, env).unwrap();

    let seen = ctx.try_recv(&mut book).unwrap();
    assert_eq!(seen.message, Message::ConfigUpdated);
    assert_eq!(ctx.trace_id(), 77);
    assert_eq!(ctx.config().mailbox_capacity, 9);

    let requester_ctx = Context::new(Demux::new()).with_addr(requester);
    let got = requester_ctx.take_any(&mut book, id).unwrap().unwrap();
    assert_eq!(got, Message::ConfigOk);
}

#[test]
fn terminate_moves_the_actor_forward_only() {
    let mut book = AddressBook::new();
    let actor = new_actor(&mut book, 8);
    let mut ctx = Context::new(Demux::new()).with_addr(actor);
    assert_eq!(book.status_of(actor), Some(ActorStatus::Initializing));

    let env = Envelope::new(Message::Terminate, MessageKind::Regular { sender: Addr::null() }, 5);
    book.try_send_at(actor, env).unwrap();
    let seen = ctx.try_recv(&mut book).unwrap();
    assert_eq!(seen.message, Message::Terminate);
    assert_eq!(book.status_of(actor), Some(ActorStatus::Terminating));

    // Backward transitions are ignored.
    ctx.set_status(&mut book, ActorStatus::Normal);
    assert_eq!(book.status_of(actor), Some(ActorStatus::Terminating));
}

#[test]
fn recv_prefers_the_mailbox_over_sources() {
    let mut book = AddressBook::new();
    let actor = new_actor(&mut book, 8);
    let source_env = Envelope::new(
        Message::Value { tag: 8, value: 1 },
        MessageKind::Regular { sender: Addr::null() },
        0,
    );
    let mut ctx = Context::new(Demux::new()).with_addr(actor).with(vec![source_env]);
    let mailbox_env = Envelope::new(
        Message::Value { tag: 9, value: 2 },
        MessageKind::Regular { sender: Addr::null() },
        0,
    );
    book.try_send_at(actor, mailbox_env).unwrap();

    let first = ctx.recv(&mut book).unwrap();
    assert_eq!(first.message, Message::Value { tag: 9, value: 2 });
    let second = ctx.recv(&mut book).unwrap();
    assert_eq!(second.message, Message::Value { tag: 8, value: 1 });
}

#[test]
fn close_ends_input_after_draining() {
    let mut book = AddressBook::new();
    let actor = new_actor(&mut book, 8);
    let mut ctx = Context::new(Demux::new()).with_addr(actor);
    book.try_send_at(
        actor,
        Envelope::new(ping(1), MessageKind::Regular { sender: Addr::null() }, 0),
    )
    .unwrap();
    assert!(ctx.close(&mut book));
    assert!(!ctx.close(&mut book));
    assert_eq!(ctx.recv(&mut book).unwrap().message, ping(1));
    assert!(ctx.recv(&mut book).is_none());
    assert_eq!(book.status_of(actor), Some(ActorStatus::Terminating));
}

#[test]
fn pruned_context_keeps_only_the_routing_surface() {
    let mut demux = Demux::new();
    demux.subscribe(7, Addr::from_slot(3));
    let ctx = Context::new(demux)
        .with_addr(Addr::from_slot(1))
        .with_group(Addr::from_slot(2))
        .with_key(11)
        .with_config(test_config(4));
    assert_eq!(ctx.key(), 11);
    let pruned = ctx.pruned();
    assert_eq!(pruned.addr(), ctx.addr());
    assert_eq!(pruned.group(), ctx.group());
    assert_eq!(pruned.key(), 0);
}
