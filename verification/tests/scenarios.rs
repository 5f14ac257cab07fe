use session_types::Chan;
use session_types::ChannelError;
use session_types::OfferError;
use session_types::ProtoList;
use session_types::Protocol;
use session_types::channel_pair;
use session_types::session_channel;

fn snd(next: Protocol) -> Protocol {
    Protocol::Send(Box::new(next))
}

fn rcv(next: Protocol) -> Protocol {
    Protocol::Recv(Box::new(next))
}

fn rec(body: Protocol) -> Protocol {
    Protocol::Rec(Box::new(body))
}

fn plist(branches: Vec<Protocol>) -> ProtoList {
    let mut list = ProtoList::Nil;
    for p in branches.into_iter().rev() {
        list = ProtoList::More(Box::new(p), Box::new(list));
    }
    list
}

fn pick(branches: Vec<Protocol>) -> Protocol {
    Protocol::Choose(plist(branches))
}

fn offer(branches: Vec<Protocol>) -> Protocol {
    Protocol::Offer(plist(branches))
}

#[test]
fn arithmetic_add_server_replies_with_the_sum() {
    // Server: offer either to quit or to add two numbers and send the sum.
    let server_proto = offer(vec![
        Protocol::End,
        rcv(rcv(snd(Protocol::End))),
    ]);
    let (server, client) = session_channel::<i64>(server_proto);

    let client = client.tail().unwrap().head().unwrap();
    let client = client.send(42).unwrap();
    let client = client.send(1).unwrap();

    let sum: Option<i64> = server
        .offer()
        .option(|c| {
            c.close();
            None
        })
        .option(|c| {
            let (c, n): (_, i64) = c.recv().unwrap();
            let (c, m): (_, i64) = c.recv().unwrap();
            let c = c.send(n + m).unwrap();
            c.close();
            Some(n + m)
        })
        .finish()
        .unwrap();
    assert_eq!(sum, Some(43));

    let (client, reply): (_, i64) = client.recv().unwrap();
    assert_eq!(reply, 43);
    client.close();
}

fn sqrt_server_proto() -> Protocol {
    rcv(pick(vec![snd(Protocol::End), Protocol::End]))
}

#[test]
fn arithmetic_sqrt_answers_for_non_negative_input() {
    let (server, client) = session_channel::<f64>(sqrt_server_proto());
    let client = client.send(16.0).unwrap();

    let (server, x): (_, f64) = server.recv().unwrap();
    assert!(x >= 0.0);
    let server = server.head().unwrap();
    let server = server.send(x.sqrt()).unwrap();
    server.close();

    let answered: bool = client
        .offer()
        .option(|c| {
            let (c, root): (_, f64) = c.recv().unwrap();
            assert_eq!(root, 4.0);
            c.close();
            true
        })
        .option(|c| {
            c.close();
            false
        })
        .finish()
        .unwrap();
    assert!(answered);
}

#[test]
fn arithmetic_sqrt_refuses_negative_input() {
    let (server, client) = session_channel::<f64>(sqrt_server_proto());
    let client = client.send(-1.0).unwrap();

    let (server, x): (_, f64) = server.recv().unwrap();
    assert!(x < 0.0);
    let server = server.tail().unwrap().head().unwrap();
    server.close();

    let answered: bool = client
        .offer()
        .option(|_c| unreachable!())
        .option(|c| {
            c.close();
            false
        })
        .finish()
        .unwrap();
    assert!(!answered);
}

enum AtmMsg {
    Id(String),
    Amount(u64),
}

fn atm_server_proto() -> Protocol {
    // Receive the id, then either refuse the login or enter the account
    // loop: each round offers a deposit (receive an amount, send the new
    // balance, loop) or the end of the session.
    rcv(pick(vec![
        Protocol::End,
        rec(offer(vec![rcv(snd(Protocol::Var(0))), Protocol::End])),
    ]))
}

#[test]
fn atm_refuses_an_empty_id() {
    let (server, client) = session_channel::<AtmMsg>(atm_server_proto());
    let client = client.send(AtmMsg::Id(String::new())).unwrap();

    let (server, id): (_, AtmMsg) = server.recv().unwrap();
    let approved = match id {
        AtmMsg::Id(name) => !name.is_empty(),
        AtmMsg::Amount(_) => false,
    };
    assert!(!approved);
    server.head().unwrap().close();

    let refused: bool = client
        .offer()
        .option(|c| {
            c.close();
            true
        })
        .option(|_c| unreachable!())
        .finish()
        .unwrap();
    assert!(refused);
}

#[test]
fn atm_accepts_a_deposit_for_a_known_client() {
    let (server, client) = session_channel::<AtmMsg>(atm_server_proto());
    let client = client.send(AtmMsg::Id(String::from("Deposit Client"))).unwrap();

    let (server, id): (_, AtmMsg) = server.recv().unwrap();
    let approved = match id {
        AtmMsg::Id(name) => !name.is_empty(),
        AtmMsg::Amount(_) => false,
    };
    assert!(approved);
    let server = server.tail().unwrap().head().unwrap().enter();

    let client = client
        .offer()
        .option(|_c| unreachable!())
        .option(|c| c)
        .finish()
        .unwrap();
    let client = client.enter();
    let client = client.head().unwrap();
    let client = client.send(AtmMsg::Amount(200)).unwrap();

    let mut balance: u64 = 0;
    let server = server
        .offer()
        .option(|c| {
            let (c, deposit): (_, AtmMsg) = c.recv().unwrap();
            match deposit {
                AtmMsg::Amount(amount) => balance += amount,
                AtmMsg::Id(_) => unreachable!(),
            }
            let c = c.send(AtmMsg::Amount(balance)).unwrap();
            Some(c.zero())
        })
        .option(|_c| unreachable!())
        .finish()
        .unwrap()
        .unwrap();
    assert_eq!(balance, 200);

    let (client, reply): (_, AtmMsg) = client.recv().unwrap();
    match reply {
        AtmMsg::Amount(new_balance) => assert_eq!(new_balance, 200),
        AtmMsg::Id(_) => unreachable!(),
    }
    let client = client.zero();
    client.tail().unwrap().head().unwrap().close();

    let done: bool = server
        .offer()
        .option(|_c| unreachable!())
        .option(|c| {
            c.close();
            true
        })
        .finish()
        .unwrap();
    assert!(done);
}

#[test]
fn send_fails_once_the_peer_is_gone() {
    let (a, b) = session_channel::<i64>(snd(Protocol::End));
    drop(b);
    match a.send(1) {
        Err(ChannelError::Disconnected) => {}
        _ => unreachable!(),
    }
}

#[test]
fn recv_fails_once_the_peer_is_gone() {
    let (a, b) = session_channel::<i64>(rcv(Protocol::End));
    drop(b);
    let r: Result<(_, i64), _> = a.recv();
    match r {
        Err(ChannelError::Disconnected) => {}
        _ => unreachable!(),
    }
}

#[test]
fn a_payload_where_a_marker_is_due_is_a_protocol_violation() {
    let (ca, cb) = channel_pair::<i64>();
    let a = Chan::new(ca, snd(Protocol::End));
    let b = Chan::new(cb, offer(vec![Protocol::End]));
    a.send(5).unwrap().close();
    let r: Result<i64, _> = b
        .offer()
        .option(|c| {
            c.close();
            0
        })
        .finish();
    assert_eq!(r, Err(OfferError::Transport(ChannelError::UnexpectedMessage)));
}

#[test]
fn a_marker_where_a_payload_is_due_is_a_protocol_violation() {
    let (ca, cb) = channel_pair::<i64>();
    let a = Chan::new(ca, pick(vec![Protocol::End]));
    let b = Chan::new(cb, rcv(Protocol::End));
    a.head().unwrap().close();
    let r: Result<(_, i64), _> = b.recv();
    match r {
        Err(ChannelError::UnexpectedMessage) => {}
        _ => unreachable!(),
    }
}

#[test]
fn a_choice_past_the_offer_list_is_out_of_range() {
    let (ca, cb) = channel_pair::<i64>();
    let a = Chan::new(ca, pick(vec![Protocol::End, Protocol::End]));
    let b = Chan::new(cb, offer(vec![Protocol::End]));
    a.tail().unwrap().head().unwrap().close();
    let r: Result<i64, _> = b
        .offer()
        .option(|c| {
            c.close();
            0
        })
        .finish();
    assert_eq!(r, Err(OfferError::OutOfRange));
}
