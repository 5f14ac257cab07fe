use session_types::ProtoList;
use session_types::Protocol;

fn snd(next: Protocol) -> Protocol {
    Protocol::Send(Box::new(next))
}

fn rcv(next: Protocol) -> Protocol {
    Protocol::Recv(Box::new(next))
}

fn rec(body: Protocol) -> Protocol {
    Protocol::Rec(Box::new(body))
}

fn plist(branches: Vec<Protocol>) -> ProtoList {
    let mut list = ProtoList::Nil;
    for p in branches.into_iter().rev() {
        list = ProtoList::More(Box::new(p), Box::new(list));
    }
    list
}

fn pick(branches: Vec<Protocol>) -> Protocol {
    Protocol::Choose(plist(branches))
}

fn offer(branches: Vec<Protocol>) -> Protocol {
    Protocol::Offer(plist(branches))
}

fn sample() -> Protocol {
    rec(pick(vec![
        Protocol::End,
        snd(rcv(Protocol::Var(0))),
        offer(vec![rcv(Protocol::End), rec(snd(Protocol::Var(1)))]),
    ]))
}

#[test]
fn dual_swaps_send_and_recv() {
    assert_eq!(snd(Protocol::End).dual(), rcv(Protocol::End));
    assert_eq!(rcv(Protocol::End).dual(), snd(Protocol::End));
    assert_eq!(Protocol::End.dual(), Protocol::End);
    assert_eq!(Protocol::Var(3).dual(), Protocol::Var(3));
}

#[test]
fn dual_swaps_choose_and_offer_elementwise() {
    let p = pick(vec![snd(Protocol::End), rcv(Protocol::End)]);
    let expected = offer(vec![rcv(Protocol::End), snd(Protocol::End)]);
    assert_eq!(p.dual(), expected);
}

#[test]
fn dual_keeps_recursion_structure() {
    let p = rec(snd(Protocol::Var(0)));
    assert_eq!(p.dual(), rec(rcv(Protocol::Var(0))));
}

#[test]
fn dual_is_an_involution() {
    let samples = vec![
        Protocol::End,
        snd(Protocol::End),
        rcv(snd(Protocol::End)),
        pick(vec![Protocol::End]),
        sample(),
        sample().dual(),
    ];
    for p in samples {
        assert_eq!(p.dual().dual(), p);
    }
}

#[test]
fn well_formed_accepts_closed_protocols() {
    assert!(Protocol::End.check_well_formed());
    assert!(snd(rcv(Protocol::End)).check_well_formed());
    assert!(rec(pick(vec![Protocol::End, snd(Protocol::Var(0))])).check_well_formed());
    assert!(sample().check_well_formed());
}

#[test]
fn well_formed_rejects_dangling_recursion_vars() {
    assert!(!Protocol::Var(0).check_well_formed());
    assert!(!rec(snd(Protocol::Var(1))).check_well_formed());
    assert!(!snd(Protocol::Var(0)).check_well_formed());
    assert!(rec(rec(snd(Protocol::Var(1)))).check_well_formed());
}

#[test]
fn well_formed_rejects_empty_branch_lists() {
    assert!(!Protocol::Choose(ProtoList::Nil).check_well_formed());
    assert!(!Protocol::Offer(ProtoList::Nil).check_well_formed());
    assert!(pick(vec![Protocol::End]).check_well_formed());
}

#[test]
fn duplicate_returns_an_equal_protocol() {
    let p = sample();
    assert_eq!(p.duplicate(), p);
}
