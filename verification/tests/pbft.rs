use tron_node::pbft_runtime::{
    load_active_set_for_epoch, tally_key, Act, ActiveSources, DataType, InboundVote, MsgType,
    PbftRaw, PbftRuntime, PbftRuntimeError, SrEpochSnapshot, SrlVotes, TallyKey, Tallied,
    VoteFlags,
};

const ALICE: [u8; 21] = [0x11; 21];
const BOB: [u8; 21] = [0x22; 21];
const CHARLIE: [u8; 21] = [0x33; 21];

fn on_disk(list: Vec<[u8; 21]>) -> ActiveSources {
    ActiveSources { snapshot: None, on_disk: Ok(Some(list)) }
}

fn vote(data_type: DataType, msg_type: MsgType, epoch: i64, signer: [u8; 21]) -> InboundVote {
    InboundVote {
        raw: Some(PbftRaw { msg_type, data_type, view_n: 1, epoch, data: vec![1, 2, 3] }),
        block: Some((10, [0; 32])),
        signer: Some(signer),
    }
}

fn tallied(raw: &PbftRaw, enough: bool) -> Tallied {
    Tallied { key: tally_key(raw), enough }
}

#[test]
fn on_local_block_emits_prepare_msg() {
    let rt = PbftRuntime::new();
    let mut flags = VoteFlags::new();
    let cast = rt.on_local_block(&mut flags, 0, &vec![4, 2]).expect("Prepare emitted");
    assert_eq!(cast.msg_type, MsgType::Prepare);
    assert_eq!(cast.data_type, DataType::Block);
    assert_eq!(cast.data, vec![4, 2]);
    assert_eq!(cast.view_n, 0);
}

#[test]
fn on_local_block_is_idempotent() {
    let rt = PbftRuntime::new();
    let mut flags = VoteFlags::new();
    assert!(rt.on_local_block(&mut flags, 0, &vec![4, 2]).is_some(), "first Prepare");
    assert!(rt.on_local_block(&mut flags, 0, &vec![4, 2]).is_none(), "no second Prepare");
}

#[test]
fn quorum_of_prepares_triggers_our_commit() {
    let rt = PbftRuntime::new();
    let mut flags = VoteFlags::new();
    rt.on_local_block(&mut flags, 0, &vec![7]).expect("our Prepare");
    let raw = PbftRaw {
        msg_type: MsgType::Prepare,
        data_type: DataType::Block,
        view_n: 0,
        epoch: 0,
        data: vec![7],
    };
    assert!(rt.handle_prepare(&mut flags, &raw, &tallied(&raw, false)).is_none(), "threshold not yet met");
    let commit = rt.handle_prepare(&mut flags, &raw, &tallied(&raw, true)).expect("Commit after threshold");
    assert_eq!(commit.msg_type, MsgType::Commit);
    assert!(rt.handle_prepare(&mut flags, &raw, &tallied(&raw, true)).is_none(), "no second Commit");
}

#[test]
fn quorum_of_commits_persists_signatures_and_bumps_solid() {
    let rt = PbftRuntime::new().with_common_database();
    let block = Some((123, [0xaa; 32]));
    let raw = PbftRaw {
        msg_type: MsgType::Commit,
        data_type: DataType::Block,
        view_n: 0,
        epoch: 0,
        data: vec![1, 2, 3],
    };
    let elsewhere = Tallied { key: TallyKey::Block(vec![9]), enough: true };
    assert!(matches!(rt.handle_commit(&raw, block, &elsewhere, None), Ok(None)));
    assert!(matches!(rt.handle_commit(&raw, block, &tallied(&raw, false), None), Ok(None)));
    let f = rt.handle_commit(&raw, block, &tallied(&raw, true), None).unwrap().expect("final");
    assert_eq!(f.block_num, 123);
    assert_eq!(f.solidify, Some(123));
    assert_eq!(f.pbft_num, Some(123));
    assert_eq!(f.prune_below, 123 - 1024);
    let f = rt.handle_commit(&raw, block, &tallied(&raw, true), Some(200)).unwrap().expect("final");
    assert_eq!(f.solidify, None, "the solidified number never falls");
    let f = PbftRuntime::new().handle_commit(&raw, block, &tallied(&raw, true), None).unwrap().expect("final");
    assert_eq!(f.pbft_num, None);
    let err = rt.handle_commit(&raw, None, &tallied(&raw, true), None).unwrap_err();
    assert_eq!(
        err.message(),
        "malformed PBFT message: bad data payload in commit handler"
    );
}

#[test]
fn view_change_msg_is_counted_and_does_not_disrupt_tally() {
    let mut rt = PbftRuntime::new();
    let src = on_disk(vec![ALICE, BOB]);
    let msg = vote(DataType::Block, MsgType::ViewChange, 3, BOB);
    assert_eq!(rt.view_change_count(), 0);
    let routed = rt.handle_inbound(&msg, &src).unwrap();
    assert_eq!(routed.act, Act::ViewChange);
    assert_eq!(rt.view_change_count(), 1);
    rt.handle_inbound(&msg, &src).unwrap();
    rt.handle_inbound(&msg, &src).unwrap();
    assert_eq!(rt.view_change_count(), 3);
}

#[test]
fn non_sr_signed_msg_is_dropped() {
    let mut rt = PbftRuntime::new();
    let src = on_disk(vec![ALICE]);
    let routed =
        rt.handle_inbound(&vote(DataType::Block, MsgType::Prepare, 0, [0x99; 21]), &src).unwrap();
    assert_eq!(routed.act, Act::Ignore);
    assert!(!routed.check_double_signing);
}

#[test]
fn vote_from_rotated_out_sr_is_rejected_until_in_memory_snapshot_lands() {
    let mut rt = PbftRuntime::new();
    let src = on_disk(vec![ALICE]);
    let routed =
        rt.handle_inbound(&vote(DataType::Block, MsgType::Prepare, 5, BOB), &src).unwrap();
    assert_eq!(routed.act, Act::Ignore);
}

#[test]
fn vote_from_current_active_sr_is_accepted() {
    let mut rt = PbftRuntime::new();
    let src = on_disk(vec![ALICE]);
    let routed =
        rt.handle_inbound(&vote(DataType::Block, MsgType::Prepare, 0, ALICE), &src).unwrap();
    assert_eq!(routed.act, Act::Prepare);
    assert!(routed.check_double_signing);
}

#[test]
fn acts_follow_the_kind_of_vote() {
    let mut rt = PbftRuntime::new();
    let src = on_disk(vec![ALICE]);
    let cases = [
        (DataType::Block, MsgType::Preprepare, Act::Observe { block_num: 10, block_hash: [0; 32] }),
        (DataType::Block, MsgType::Commit, Act::Commit),
        (DataType::Block, MsgType::Request, Act::Ignore),
        (DataType::Block, MsgType::Unknown, Act::Ignore),
        (DataType::Srl, MsgType::Preprepare, Act::SrlObserve),
        (DataType::Srl, MsgType::Prepare, Act::SrlPrepare),
        (DataType::Srl, MsgType::Commit, Act::SrlCommit),
        (DataType::Srl, MsgType::ViewChange, Act::Ignore),
    ];
    for (data_type, msg_type, act) in cases {
        let routed = rt.handle_inbound(&vote(data_type, msg_type, 0, ALICE), &src).unwrap();
        assert_eq!(routed.act, act);
        assert!(routed.check_double_signing);
    }
    let routed =
        rt.handle_inbound(&vote(DataType::Unknown, MsgType::Prepare, 0, ALICE), &src).unwrap();
    assert!(!routed.check_double_signing);
    assert_eq!(rt.view_change_count(), 0);
}

#[test]
fn malformed_votes_are_refused() {
    let mut rt = PbftRuntime::new();
    let src = on_disk(vec![ALICE]);
    let mut m = vote(DataType::Block, MsgType::Prepare, 0, ALICE);
    m.signer = None;
    let err = rt.handle_inbound(&m, &src).unwrap_err();
    assert_eq!(err.message(), "malformed PBFT message: signature recovery failed");
    m.block = None;
    let err = rt.handle_inbound(&m, &src).unwrap_err();
    assert_eq!(err.message(), "malformed PBFT message: bad data payload");
    m.raw = None;
    let err = rt.handle_inbound(&m, &src).unwrap_err();
    assert_eq!(err.message(), "malformed PBFT message: missing raw_data");
    let mut m = vote(DataType::Srl, MsgType::Prepare, 0, ALICE);
    m.signer = None;
    let err = rt.handle_inbound(&m, &src).unwrap_err();
    assert_eq!(err.message(), "malformed PBFT message: SRL signature recovery failed");
    let broken = ActiveSources { snapshot: None, on_disk: Err("disk".to_string()) };
    let err = rt
        .handle_inbound(&vote(DataType::Block, MsgType::Prepare, 0, ALICE), &broken)
        .unwrap_err();
    assert_eq!(err.message(), "storage: load_active: disk");
    let poisoned = ActiveSources { snapshot: Some(Err("held".to_string())), on_disk: Ok(None) };
    let err = rt
        .handle_inbound(&vote(DataType::Block, MsgType::Prepare, 0, ALICE), &poisoned)
        .unwrap_err();
    assert_eq!(err.message(), "storage: sr snapshot poisoned: held");
    assert_eq!(PbftRuntimeError::Sign("no key".to_string()).message(), "signing failed: no key");
}

#[test]
fn srl_prepare_threshold_triggers_our_commit() {
    let mut votes = SrlVotes::new();
    let prepare = votes.cast_our_srl_prepare(5, &vec![9]).expect("our SRL Prepare");
    assert_eq!(prepare.view_n, 5);
    let raw = PbftRaw {
        msg_type: MsgType::Prepare,
        data_type: DataType::Srl,
        view_n: 5,
        epoch: 5,
        data: vec![9],
    };
    assert!(votes.handle_srl_prepare(&raw, &tallied(&raw, false)).is_none());
    let commit = votes.handle_srl_prepare(&raw, &tallied(&raw, true)).expect("our SRL Commit");
    assert_eq!(commit.msg_type, MsgType::Commit);
    assert_eq!(commit.data_type, DataType::Srl);
    assert!(votes.handle_srl_prepare(&raw, &tallied(&raw, true)).is_none());
    assert_eq!(votes.handle_srl_commit(&raw, &tallied(&raw, false)), None);
    assert_eq!(votes.handle_srl_commit(&raw, &tallied(&raw, true)), Some(5));
    assert!(votes.cast_our_srl_prepare(5, &vec![9]).is_none(), "no second Prepare once final");
    let elsewhere = Tallied { key: TallyKey::Srl(4), enough: true };
    assert!(votes.handle_srl_prepare(&raw, &elsewhere).is_none(), "another epoch's votes");
    assert_eq!(votes.handle_srl_commit(&raw, &elsewhere), None);
}

#[test]
fn list_votes_are_counted_by_epoch() {
    let mut rt = PbftRuntime::new();
    let dave = [0x44; 21];
    let src = on_disk(vec![ALICE, BOB, CHARLIE, dave]);
    let mut counted = vec![];
    for (epoch, signer) in [(7, BOB), (8, CHARLIE), (8, dave)] {
        let routed =
            rt.handle_inbound(&vote(DataType::Srl, MsgType::Commit, epoch, signer), &src).unwrap();
        let c = routed.count.expect("a Commit is counted");
        assert_eq!(c.signer, signer);
        assert_eq!(c.witnesses, 4);
        match c.key {
            TallyKey::Srl(e) => counted.push(e),
            TallyKey::Block(_) => panic!("a list vote in a block's tally"),
        }
    }
    assert_eq!(counted, vec![7, 8, 8]);
    let routed =
        rt.handle_inbound(&vote(DataType::Block, MsgType::Prepare, 7, BOB), &src).unwrap();
    match routed.count.expect("a Prepare is counted").key {
        TallyKey::Block(d) => assert_eq!(d, vec![1, 2, 3]),
        TallyKey::Srl(_) => panic!("a block vote in a list's tally"),
    }
    let routed =
        rt.handle_inbound(&vote(DataType::Srl, MsgType::Preprepare, 7, BOB), &src).unwrap();
    assert!(routed.count.is_none());
    let mut votes = SrlVotes::new();
    let own = votes.cast_our_srl_prepare(9, &vec![1]).expect("our Prepare");
    assert!(matches!(own.tally_key(), TallyKey::Srl(9)));
    let raw = vote(DataType::Srl, MsgType::Prepare, 9, ALICE).raw.unwrap();
    assert!(matches!(tally_key(&raw), TallyKey::Srl(9)));
}

#[test]
fn srl_prepares_are_cast_once_per_epoch() {
    let mut votes = SrlVotes::new();
    assert!(votes.cast_our_srl_prepare(5, &vec![9]).is_some());
    assert!(votes.cast_our_srl_prepare(5, &vec![9]).is_none());
    assert!(votes.cast_our_srl_prepare(5, &vec![1]).is_none());
    assert!(votes.cast_our_srl_prepare(6, &vec![9]).is_some(), "the same list in a new epoch");
}

#[test]
fn lists_are_voted_on_once_per_cycle() {
    let mut rt = PbftRuntime::new();
    assert_eq!(rt.maybe_cast_srl_on_cycle_advance(0, true), None);
    assert_eq!(rt.maybe_cast_srl_on_cycle_advance(4, false), None);
    assert_eq!(rt.maybe_cast_srl_on_cycle_advance(4, true), Some(4));
    assert_eq!(rt.maybe_cast_srl_on_cycle_advance(4, true), None);
    assert_eq!(rt.maybe_cast_srl_on_cycle_advance(3, true), None);
    assert_eq!(rt.maybe_cast_srl_on_cycle_advance(5, true), Some(5));
}

#[test]
fn snapshot_routes_active_set_by_epoch_relative_to_before_time() {
    let mut snap = SrEpochSnapshot::new(vec![ALICE, CHARLIE]);
    snap.rotate(vec![ALICE, BOB], vec![ALICE, CHARLIE], 1000);
    let src = ActiveSources {
        snapshot: Some(Ok(snap)),
        on_disk: Ok(Some(vec![ALICE, CHARLIE])),
    };

    let pre_active = load_active_set_for_epoch(&src, 1000).unwrap();
    assert!(
        pre_active.contains(&BOB),
        "pre-rotation Bob must be accepted at epoch == before_maintenance_time"
    );
    assert!(!pre_active.contains(&CHARLIE));

    let post_active = load_active_set_for_epoch(&src, 1001).unwrap();
    assert!(post_active.contains(&CHARLIE));
    assert!(
        !post_active.contains(&BOB),
        "post-rotation Bob must NOT be accepted once epoch crosses the boundary"
    );

    assert!(pre_active.contains(&ALICE));
    assert!(post_active.contains(&ALICE));
}

#[test]
fn no_snapshot_falls_back_to_on_disk_active_list() {
    let src = on_disk(vec![ALICE]);
    let any_epoch_set = load_active_set_for_epoch(&src, 0).unwrap();
    assert!(any_epoch_set.contains(&ALICE));
    assert!(!any_epoch_set.contains(&BOB));
    let later_set = load_active_set_for_epoch(&src, 10_000_000).unwrap();
    assert!(later_set.contains(&ALICE));
    assert!(!later_set.contains(&BOB));
    let empty = ActiveSources { snapshot: None, on_disk: Ok(None) };
    assert_eq!(load_active_set_for_epoch(&empty, 0).unwrap().len(), 0);
}

#[test]
fn live_snapshot_update_propagates_to_pbft_lookup() {
    let mut src = ActiveSources {
        snapshot: Some(Ok(SrEpochSnapshot::new(vec![ALICE, BOB]))),
        on_disk: Ok(Some(vec![ALICE, BOB])),
    };
    let set = load_active_set_for_epoch(&src, 5_000).unwrap();
    assert!(set.contains(&BOB));
    assert!(!set.contains(&CHARLIE));

    if let Some(Ok(snap)) = &mut src.snapshot {
        snap.rotate(vec![ALICE, BOB], vec![ALICE, CHARLIE], 5_000);
    }

    let pre = load_active_set_for_epoch(&src, 5_000).unwrap();
    assert!(pre.contains(&BOB));
    assert!(!pre.contains(&CHARLIE));
    let post = load_active_set_for_epoch(&src, 5_001).unwrap();
    assert!(post.contains(&CHARLIE));
    assert!(!post.contains(&BOB));
}
