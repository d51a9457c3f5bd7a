use service_dispatcher::config::{
    byzantine_majority_count, ConfigTxKind, ConfigurationSchema, ConfigurationService, CoreSchema,
    ProposeOutcome, StoredConfiguration, TxConfigPropose, TxConfigVote, VoteOutcome, VoteSlot,
    CONFIG_SERVICE,
};
use service_dispatcher::types::{Digest, PublicKey};
use service_dispatcher::wallet::{TransferError, WalletSchema, INITIAL_BALANCE};

fn key(b: u8) -> PublicKey {
    PublicKey { bytes: [b; 32] }
}

fn digest(b: u8) -> Digest {
    Digest { bytes: [b; 32] }
}

const GENESIS_HASH: u8 = 0xA0;
const CANDIDATE_HASH: u8 = 0xB0;

fn four_validators() -> CoreSchema {
    let genesis = StoredConfiguration {
        previous_cfg_hash: Digest::zero(),
        actual_from: 0,
        validators: vec![key(1), key(2), key(3), key(4)],
    };
    CoreSchema::new(genesis, digest(GENESIS_HASH))
}

fn candidate(actual_from: u64) -> Option<(StoredConfiguration, Digest)> {
    Some((
        StoredConfiguration {
            previous_cfg_hash: digest(GENESIS_HASH),
            actual_from,
            validators: vec![key(1), key(2), key(3), key(4)],
        },
        digest(CANDIDATE_HASH),
    ))
}

fn propose(from: u8) -> TxConfigPropose {
    TxConfigPropose { from: key(from), cfg: "{\"actual_from\":10}".into() }
}

fn vote(from: u8) -> TxConfigVote {
    TxConfigVote { from: key(from), cfg_hash: digest(CANDIDATE_HASH) }
}

#[test]
fn majority_of_four_needs_four_votes() {
    assert_eq!(byzantine_majority_count(4), 4);
    assert_eq!(byzantine_majority_count(3), 3);
    assert_eq!(byzantine_majority_count(7), 6);
    assert_eq!(byzantine_majority_count(0), 1);
}

#[test]
fn reconfiguration_majority() {
    let mut core = four_validators();
    let mut schema = ConfigurationSchema::new();
    assert_eq!(
        propose(1).execute(&core, &mut schema, candidate(10), digest(0xEE)),
        ProposeOutcome::Accepted
    );
    assert_eq!(schema.config_hash_by_ordinal().len(), 1);
    assert_eq!(schema.votes_by_config_hash(&digest(CANDIDATE_HASH)).len(), 4);
    for v in 1..=3u8 {
        match vote(v).execute(&mut core, &mut schema, digest(0x55)) {
            VoteOutcome::Accepted { validator_index, committed } => {
                assert_eq!(validator_index, (v - 1) as u64);
                assert!(!committed);
            }
            other => panic!("unexpected outcome {:?}", other),
        }
        assert!(core.following_config.is_none());
    }
    assert_eq!(
        vote(4).execute(&mut core, &mut schema, digest(0x55)),
        VoteOutcome::Accepted { validator_index: 3, committed: true }
    );
    let (h, cfg) = core.following_config.clone().expect("following config scheduled");
    assert_eq!(h, digest(CANDIDATE_HASH));
    assert_eq!(cfg.actual_from, 10);
    assert_eq!(
        propose(2).execute(&core, &mut schema, candidate(20), digest(0xEE)),
        ProposeOutcome::FollowingConfigScheduled
    );
    assert_eq!(vote(1).execute(&mut core, &mut schema, digest(0x55)), VoteOutcome::FollowingConfigScheduled);
}

#[test]
fn propose_is_checked_in_order() {
    let core = four_validators();
    let mut schema = ConfigurationSchema::new();
    assert_eq!(
        propose(9).execute(&core, &mut schema, candidate(10), digest(0)),
        ProposeOutcome::UnknownValidator
    );
    assert_eq!(propose(1).execute(&core, &mut schema, None, digest(0)), ProposeOutcome::InvalidConfig);
    let mut wrong = candidate(10).unwrap();
    wrong.0.previous_cfg_hash = digest(0x11);
    assert_eq!(
        propose(1).execute(&core, &mut schema, Some(wrong), digest(0)),
        ProposeOutcome::WrongPreviousConfig
    );
    assert_eq!(
        propose(1).execute(&core, &mut schema, candidate(0), digest(0)),
        ProposeOutcome::ActualFromNotInFuture
    );
    assert!(schema.propose_data_by_config_hash().is_empty());
}

#[test]
fn second_propose_of_same_config_changes_nothing() {
    let core = four_validators();
    let mut schema = ConfigurationSchema::new();
    assert_eq!(propose(1).execute(&core, &mut schema, candidate(10), digest(0xEE)), ProposeOutcome::Accepted);
    assert_eq!(
        propose(2).execute(&core, &mut schema, candidate(10), digest(0xEF)),
        ProposeOutcome::AlreadyProposed
    );
    assert_eq!(schema.propose_data_by_config_hash().len(), 1);
    assert_eq!(schema.config_hash_by_ordinal().len(), 1);
    let stored = schema.get_propose(&digest(CANDIDATE_HASH)).unwrap();
    assert_eq!(stored.from, key(1));
    let data = schema.get_propose_data(&digest(CANDIDATE_HASH)).unwrap();
    assert_eq!(data.votes_history_hash, digest(0xEE));
    assert_eq!(data.num_votes, 4);
}

#[test]
fn first_vote_of_a_validator_wins() {
    let mut core = four_validators();
    let mut schema = ConfigurationSchema::new();
    propose(1).execute(&core, &mut schema, candidate(10), digest(0xEE));
    vote(2).execute(&mut core, &mut schema, digest(0x55));
    vote(2).execute(&mut core, &mut schema, digest(0x55));
    let votes = schema.get_votes(&digest(CANDIDATE_HASH));
    assert_eq!(votes.len(), 4);
    assert!(votes[0].is_none());
    assert_eq!(votes[1].unwrap().from, key(2));
    assert_eq!(votes.iter().filter(|v| v.is_some()).count(), 1);
    assert_eq!(schema.count_votes(&digest(CANDIDATE_HASH)), 1);
    assert!(matches!(schema.votes_by_config_hash(&digest(CANDIDATE_HASH))[1], VoteSlot::Cast(_)));
    assert_eq!(schema.get_propose_data(&digest(CANDIDATE_HASH)).unwrap().votes_history_hash, digest(0x55));
    assert!(schema.set_votes_history_hash(&digest(CANDIDATE_HASH), &digest(0x42)));
    assert_eq!(schema.get_propose_data(&digest(CANDIDATE_HASH)).unwrap().votes_history_hash, digest(0x42));
}

#[test]
fn vote_is_checked_in_order() {
    let mut core = four_validators();
    let mut schema = ConfigurationSchema::new();
    assert_eq!(vote(1).execute(&mut core, &mut schema, digest(0x55)), VoteOutcome::UnknownPropose);
    propose(1).execute(&core, &mut schema, candidate(10), digest(0xEE));
    assert_eq!(vote(9).execute(&mut core, &mut schema, digest(0x55)), VoteOutcome::UnknownValidator);
    core.height = 10;
    assert_eq!(vote(1).execute(&mut core, &mut schema, digest(0x55)), VoteOutcome::ActualFromNotInFuture);
    core.height = 0;
    core.actual_config_hash = digest(0x33);
    assert_eq!(vote(1).execute(&mut core, &mut schema, digest(0x55)), VoteOutcome::WrongPreviousConfig);
}

#[test]
fn configuration_service_identity() {
    let service = ConfigurationService::new();
    assert_eq!(service.service_name(), "configuration");
    assert_eq!(service.service_id(), CONFIG_SERVICE);
    assert_eq!(service.tx_kind(0), Some(ConfigTxKind::Propose));
    assert_eq!(service.tx_kind(1), Some(ConfigTxKind::Vote));
    assert_eq!(service.tx_kind(2), None);
}

#[test]
fn wallet_transfer() {
    let mut wallets = WalletSchema::new();
    let (wa, wb) = (key(0xA), key(0xB));
    assert!(wallets.create_wallet(&wa, "alice".into(), digest(1), digest(0x11)));
    assert!(wallets.create_wallet(&wb, "bob".into(), digest(2), digest(0x12)));
    assert_eq!(wallets.wallet_state(&wa), Some((INITIAL_BALANCE, 1, digest(0x11))));
    let t = digest(0x77);
    wallets.transfer(&wa, &wb, 30, t, digest(0x21), digest(0x22)).unwrap();
    assert_eq!(wallets.wallet_state(&wa), Some((70, 2, digest(0x21))));
    assert_eq!(wallets.wallet_state(&wb), Some((130, 2, digest(0x22))));
    assert_eq!(wallets.wallet_history(&wa), vec![digest(1), t]);
    assert_eq!(wallets.wallet_history(&wb), vec![digest(2), t]);
}

#[test]
fn wallet_errors() {
    let mut wallets = WalletSchema::new();
    let (wa, wb) = (key(0xA), key(0xB));
    assert!(wallets.create_wallet(&wa, "alice".into(), digest(1), digest(0x11)));
    assert!(!wallets.create_wallet(&wa, "again".into(), digest(3), digest(0x13)));
    assert_eq!(wallets.wallet_history(&wa), vec![digest(1)]);
    assert_eq!(wallets.transfer(&wa, &wa, 1, digest(5), digest(0), digest(0)), Err(TransferError::SenderSameAsReceiver));
    assert_eq!(wallets.transfer(&wa, &wb, 1, digest(5), digest(0), digest(0)), Err(TransferError::ReceiverNotFound));
    assert_eq!(wallets.transfer(&wb, &wa, 1, digest(5), digest(0), digest(0)), Err(TransferError::SenderNotFound));
    assert!(wallets.create_wallet(&wb, "bob".into(), digest(2), digest(0x12)));
    assert_eq!(
        wallets.transfer(&wa, &wb, 101, digest(5), digest(0), digest(0)),
        Err(TransferError::InsufficientCurrencyAmount)
    );
    assert_eq!(wallets.wallet_state(&wa), Some((INITIAL_BALANCE, 1, digest(0x11))));
    wallets.increase_wallet_balance(&wb, u64::MAX - INITIAL_BALANCE, digest(6), digest(0x16));
    assert_eq!(wallets.transfer(&wa, &wb, 1, digest(5), digest(0), digest(0)), Err(TransferError::BalanceOverflow));
    wallets.decrease_wallet_balance(&wa, 40, digest(7), digest(0x17));
    assert_eq!(wallets.wallet_state(&wa), Some((60, 2, digest(0x17))));
}

#[test]
fn votes_after_shows_the_list_a_vote_leaves() {
    let core = four_validators();
    let mut schema = ConfigurationSchema::new();
    assert!(vote(2).votes_after(&core, &schema).is_none());
    propose(1).execute(&core, &mut schema, candidate(10), digest(0xEE));
    let after = vote(2).votes_after(&core, &schema).unwrap();
    assert_eq!(after.len(), 4);
    assert!(matches!(after[0], VoteSlot::Empty));
    assert!(matches!(after[1], VoteSlot::Cast(v) if v.from == key(2)));
    assert!(vote(9).votes_after(&core, &schema).is_none());
}
