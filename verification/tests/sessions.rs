use session_types::ProtoList;
use session_types::Protocol;
use session_types::session_channel;

fn snd(next: Protocol) -> Protocol {
    Protocol::Send(Box::new(next))
}

fn rcv(next: Protocol) -> Protocol {
    Protocol::Recv(Box::new(next))
}

fn rec(body: Protocol) -> Protocol {
    Protocol::Rec(Box::new(body))
}

fn plist(branches: Vec<Protocol>) -> ProtoList {
    let mut list = ProtoList::Nil;
    for p in branches.into_iter().rev() {
        list = ProtoList::More(Box::new(p), Box::new(list));
    }
    list
}

fn pick(branches: Vec<Protocol>) -> Protocol {
    Protocol::Choose(plist(branches))
}

#[test]
fn pair_protocols_are_dual_and_stay_dual() {
    let p = snd(rcv(Protocol::End));
    let (a, b) = session_channel::<i64>(p.duplicate());
    assert_eq!(*a.protocol(), p);
    assert_eq!(*b.protocol(), p.dual());

    let a = a.send(7).unwrap();
    let (b, v): (_, i64) = b.recv().unwrap();
    assert_eq!(v, 7);
    assert_eq!(a.protocol().dual(), *b.protocol());

    let b = b.send(9).unwrap();
    let (a, w): (_, i64) = a.recv().unwrap();
    assert_eq!(w, 9);
    assert_eq!(a.protocol().dual(), *b.protocol());

    a.close();
    b.close();
}

#[test]
fn duality_is_preserved_across_choice_and_recursion() {
    let p = rec(pick(vec![Protocol::End, snd(Protocol::Var(0))]));
    let (a, b) = session_channel::<i64>(p);

    let a = a.enter();
    let b = b.enter();
    assert_eq!(a.protocol().dual(), *b.protocol());

    let a = a.tail().unwrap().head().unwrap();
    let b = b
        .offer()
        .option(|_c| None)
        .option(Some)
        .finish()
        .unwrap()
        .unwrap();
    assert_eq!(a.protocol().dual(), *b.protocol());

    let a = a.send(1).unwrap();
    let (b, _v): (_, i64) = b.recv().unwrap();
    assert_eq!(a.protocol().dual(), *b.protocol());

    let a = a.zero();
    let b = b.zero();
    assert_eq!(a.protocol().dual(), *b.protocol());

    a.head().unwrap().close();
    b.offer()
        .option(|c| {
            c.close();
            None
        })
        .option(|_c| -> Option<()> { unreachable!() })
        .finish()
        .unwrap();
}

#[test]
fn sends_arrive_in_order() {
    let p = snd(snd(snd(Protocol::End)));
    let (a, b) = session_channel::<i64>(p);
    let a = a.send(10).unwrap();
    let a = a.send(20).unwrap();
    let a = a.send(30).unwrap();
    a.close();

    let (b, x): (_, i64) = b.recv().unwrap();
    let (b, y): (_, i64) = b.recv().unwrap();
    let (b, z): (_, i64) = b.recv().unwrap();
    assert_eq!((x, y, z), (10, 20, 30));
    b.close();
}

#[test]
fn each_choice_index_reaches_its_handler() {
    for picked in 0..3usize {
        let p = pick(vec![Protocol::End, Protocol::End, Protocol::End]);
        let (a, b) = session_channel::<i64>(p);

        let mut chooser = a;
        for _ in 0..picked {
            chooser = chooser.tail().unwrap();
        }
        chooser.head().unwrap().close();

        let selected: usize = b
            .offer()
            .option(|c| {
                c.close();
                0
            })
            .option(|c| {
                c.close();
                1
            })
            .option(|c| {
                c.close();
                2
            })
            .finish()
            .unwrap();
        assert_eq!(selected, picked);
    }
}

#[test]
fn single_branch_choice_selects_it() {
    let p = pick(vec![Protocol::End]);
    let (a, b) = session_channel::<i64>(p);
    a.head().unwrap().close();
    let selected: u32 = b
        .offer()
        .option(|c| {
            c.close();
            41
        })
        .finish()
        .unwrap();
    assert_eq!(selected, 41);
}

#[test]
fn skips_walk_the_choice_list() {
    for (picked, skipper) in [
        (2usize, 0usize),
        (3, 1),
        (4, 2),
        (5, 3),
    ] {
        let ends = vec![
            Protocol::End,
            Protocol::End,
            Protocol::End,
            Protocol::End,
            Protocol::End,
            Protocol::End,
        ];
        let (a, b) = session_channel::<i64>(pick(ends));
        let skipped = match skipper {
            0 => a.skip().unwrap(),
            1 => a.skip2().unwrap(),
            2 => a.skip3().unwrap(),
            _ => a.skip4().unwrap(),
        };
        let mut chooser = skipped;
        for _ in 0..(picked - skipper - 1) {
            chooser = chooser.tail().unwrap();
        }
        chooser.head().unwrap().close();

        let selected: usize = b
            .offer()
            .option(|c| {
                c.close();
                0
            })
            .option(|c| {
                c.close();
                1
            })
            .option(|c| {
                c.close();
                2
            })
            .option(|c| {
                c.close();
                3
            })
            .option(|c| {
                c.close();
                4
            })
            .option(|c| {
                c.close();
                5
            })
            .finish()
            .unwrap();
        assert_eq!(selected, picked);
    }
}

#[test]
fn recursive_protocol_delivers_each_value() {
    let p = rec(pick(vec![Protocol::End, snd(Protocol::Var(0))]));
    let (a, b) = session_channel::<i64>(p);

    let mut client = a.enter();
    assert_eq!(client.env_depth(), 1);
    for k in 0..3i64 {
        let picked = client.tail().unwrap().head().unwrap();
        client = picked.send(100 + k).unwrap().zero();
    }
    client.head().unwrap().close();

    let mut got: Vec<i64> = Vec::new();
    let mut server = Some(b.enter());
    while let Some(d) = server.take() {
        server = d
            .offer()
            .option(|c| {
                c.close();
                None
            })
            .option(|c| {
                let (c, v): (_, i64) = c.recv().unwrap();
                got.push(v);
                Some(c.zero())
            })
            .finish()
            .unwrap();
    }
    assert_eq!(got, vec![100, 101, 102]);
}

#[test]
fn popping_a_recursion_level_returns_to_the_outer_loop() {
    let inner = pick(vec![snd(Protocol::Var(0)), Protocol::Var(1)]);
    let outer = rec(pick(vec![Protocol::End, rec(inner)]));
    assert!(outer.check_well_formed());
    let (a, b) = session_channel::<i64>(outer);

    let c = a.enter();
    assert_eq!(c.env_depth(), 1);
    let c = c.tail().unwrap().head().unwrap();
    let c = c.enter();
    assert_eq!(c.env_depth(), 2);
    let c = c.head().unwrap();
    let c = c.send(5).unwrap();
    let c = c.zero();
    let c = c.tail().unwrap().head().unwrap();
    let c = c.succ();
    assert_eq!(c.env_depth(), 1);
    let c = c.zero();
    c.head().unwrap().close();

    let d = b.enter();
    let result: i64 = d
        .offer()
        .option(|c| {
            c.close();
            -1
        })
        .option(|c| {
            let c = c.enter();
            assert_eq!(c.env_depth(), 2);
            let c = c
                .offer()
                .option(|c2| {
                    let (c2, v): (_, i64) = c2.recv().unwrap();
                    assert_eq!(v, 5);
                    c2.zero()
                })
                .option(|_c2| unreachable!())
                .finish()
                .unwrap();
            let c = c
                .offer()
                .option(|_c2| unreachable!())
                .option(|c2| {
                    let c2 = c2.succ();
                    assert_eq!(c2.env_depth(), 1);
                    c2.zero()
                })
                .finish()
                .unwrap();
            c.offer()
                .option(|c2| {
                    c2.close();
                    7
                })
                .option(|_c2| unreachable!())
                .finish()
                .unwrap()
        })
        .finish()
        .unwrap();
    assert_eq!(result, 7);
}
