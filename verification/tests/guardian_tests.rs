use estate_vault::email::{canonical_email, hash_email};
use estate_vault::errors::GuardianError;
use estate_vault::guardian::{
    accept_invitation, commit_guardian_share, list_guardian_vaults, list_guardians,
    register_guardians, snapshot_guardian, submit_share_precheck, threshold_summary,
    validate_invites, AcceptGuardianArgs, GuardianManagerState, GuardianRegistration,
    GuardianStatus, RegisterGuardiansArgs, SubmitShareArgs,
};

fn invite(email: &str, alias: &str) -> GuardianRegistration {
    GuardianRegistration { email: email.to_string(), alias: alias.to_string() }
}

fn three_invites() -> Vec<GuardianRegistration> {
    vec![
        invite("alpha@example.com", "Alpha"),
        invite("beta@example.com", "Beta"),
        invite("gamma@example.com", "Gamma"),
    ]
}

fn register_args(vault_id: u64, owner: Vec<u8>, threshold: u64) -> RegisterGuardiansArgs {
    RegisterGuardiansArgs {
        vault_id,
        owner,
        threshold,
        key_id: "key_1".to_string(),
        invites: three_invites(),
    }
}

#[test]
fn hash_email_normalizes_case() {
    let h1 = hash_email("Guardian@Example.com");
    let h2 = hash_email("guardian@example.com");
    assert_eq!(h1, h2);
}

#[test]
fn validate_invites_rejects_duplicates() {
    let invites = vec![
        invite("dup@example.com", "A"),
        invite("DUP@example.com", "B"),
        invite("unique@example.com", "C"),
    ];
    assert!(validate_invites(&invites, 2).is_err());
}

#[test]
fn validate_invites_accepts_valid_payload() {
    let invites = vec![
        invite("alpha@example.com", "Alpha"),
        invite("beta@example.com", "Beta"),
        invite("gamma@example.com", "Gamma"),
    ];
    assert!(validate_invites(&invites, 2).is_ok());
}

#[test]
fn canonical_email_trims_and_lowercases() {
    assert_eq!(canonical_email("  Guardian@Example.COM  "), "guardian@example.com");
    assert_eq!(canonical_email("plain@example.com"), "plain@example.com");
    assert_eq!(canonical_email("   "), "");
}

#[test]
fn hash_email_is_sha256_of_canonical_form() {
    // SHA-256 of the empty string, the canonical form of a blank email
    let expected: Vec<u8> = vec![
        0xe3, 0xb0, 0xc4, 0x42, 0x98, 0xfc, 0x1c, 0x14, 0x9a, 0xfb, 0xf4, 0xc8, 0x99, 0x6f, 0xb9,
        0x24, 0x27, 0xae, 0x41, 0xe4, 0x64, 0x9b, 0x93, 0x4c, 0xa4, 0x95, 0x99, 0x1b, 0x78, 0x52,
        0xb8, 0x55,
    ];
    assert_eq!(hash_email("   "), expected);
}

#[test]
fn register_rejects_bad_counts_thresholds_and_duplicate_emails() {
    let owner = vec![1u8, 2, 3];
    let mut state = GuardianManagerState::new();

    // two guardians: under the minimum count
    let mut args = register_args(1, owner.clone(), 2);
    args.invites.truncate(2);
    let r = register_guardians(&mut state, &owner, 10, args);
    assert!(matches!(r, Err(GuardianError::Validation)));

    // six guardians: over the maximum count
    let mut args = register_args(1, owner.clone(), 2);
    args.invites.push(invite("d@example.com", "D"));
    args.invites.push(invite("e@example.com", "E"));
    args.invites.push(invite("f@example.com", "F"));
    let r = register_guardians(&mut state, &owner, 10, args);
    assert!(matches!(r, Err(GuardianError::Validation)));

    // threshold below two and above the count
    let r = register_guardians(&mut state, &owner, 10, register_args(1, owner.clone(), 1));
    assert!(matches!(r, Err(GuardianError::Validation)));
    let r = register_guardians(&mut state, &owner, 10, register_args(1, owner.clone(), 4));
    assert!(matches!(r, Err(GuardianError::Validation)));

    // case-insensitive duplicate emails collide
    let mut args = register_args(1, owner.clone(), 2);
    args.invites[1].email = "Alpha@Example.com".to_string();
    let r = register_guardians(&mut state, &owner, 10, args);
    assert!(matches!(r, Err(GuardianError::Validation)));

    // nothing was committed by any failed attempt
    assert!(matches!(
        threshold_summary(&state, 1),
        Err(GuardianError::VaultNotFound(1))
    ));
}

#[test]
fn register_requires_owner_and_respects_manager() {
    let owner = vec![1u8];
    let outsider = vec![9u8];
    let mut state = GuardianManagerState::new();
    let r = register_guardians(&mut state, &outsider, 10, register_args(1, owner.clone(), 2));
    assert!(matches!(r, Err(GuardianError::Unauthorized)));

    estate_vault::guardian::set_vault_manager(&mut state, vec![7u8]);
    let r = register_guardians(&mut state, &owner, 10, register_args(1, owner.clone(), 2));
    assert!(matches!(r, Err(GuardianError::Unauthorized)));
}

#[test]
fn register_rejects_second_registration_for_same_vault() {
    let owner = vec![1u8];
    let mut state = GuardianManagerState::new();
    register_guardians(&mut state, &owner, 10, register_args(1, owner.clone(), 2))
        .expect("first registration");
    let r = register_guardians(&mut state, &owner, 11, register_args(1, owner.clone(), 2));
    assert!(matches!(r, Err(GuardianError::VaultAlreadyRegistered(1))));
}

#[test]
fn threshold_scenario_two_of_three() {
    let owner = vec![1u8];
    let guardian_a = vec![0xAAu8];
    let guardian_b = vec![0xBBu8];
    let mut state = GuardianManagerState::new();
    let records = register_guardians(&mut state, &owner, 10, register_args(7, owner.clone(), 2))
        .expect("registered");
    assert_eq!(records.len(), 3);
    assert!(records.iter().all(|r| matches!(r.status, GuardianStatus::Invited)));
    let hash_a = records[0].email_hash.clone();
    let hash_b = records[1].email_hash.clone();

    // guardian A accepts and submits
    let rec = accept_invitation(
        &mut state,
        guardian_a.clone(),
        11,
        &AcceptGuardianArgs { vault_id: 7, email_hash: hash_a.clone() },
    )
    .expect("accept a");
    assert!(matches!(rec.status, GuardianStatus::Accepted));
    let args = SubmitShareArgs { vault_id: 7, email_hash: hash_a.clone(), share_payload: vec![1, 2, 3] };
    submit_share_precheck(&state, &guardian_a, &args).expect("precheck a");
    let receipt = commit_guardian_share(&mut state, &guardian_a, 7, &hash_a, vec![9, 9], 12)
        .expect("commit a");
    assert_eq!(receipt.submitted_at, 12);
    assert_eq!(receipt.remaining_required, 1);

    let summary = threshold_summary(&state, 7).expect("summary");
    assert_eq!(summary.submitted, 1);
    assert!(!summary.threshold_met);

    // guardian B accepts and submits; the threshold of two is met
    accept_invitation(
        &mut state,
        guardian_b.clone(),
        13,
        &AcceptGuardianArgs { vault_id: 7, email_hash: hash_b.clone() },
    )
    .expect("accept b");
    commit_guardian_share(&mut state, &guardian_b, 7, &hash_b, vec![8, 8], 14).expect("commit b");
    let summary = threshold_summary(&state, 7).expect("summary");
    assert_eq!(summary.submitted, 2);
    assert!(summary.threshold_met);
}

#[test]
fn submit_while_invited_fails_and_resubmission_fails() {
    let owner = vec![1u8];
    let guardian_a = vec![0xAAu8];
    let mut state = GuardianManagerState::new();
    let records = register_guardians(&mut state, &owner, 10, register_args(3, owner.clone(), 2))
        .expect("registered");
    let hash_a = records[0].email_hash.clone();

    // still Invited: the submission is refused for the lifecycle state
    let args = SubmitShareArgs { vault_id: 3, email_hash: hash_a.clone(), share_payload: vec![1] };
    let r = submit_share_precheck(&state, &guardian_a, &args);
    assert!(matches!(r, Err(GuardianError::GuardianNotAccepted)));

    // accept, submit, then try again: the share is immutable once set
    accept_invitation(
        &mut state,
        guardian_a.clone(),
        11,
        &AcceptGuardianArgs { vault_id: 3, email_hash: hash_a.clone() },
    )
    .expect("accept");
    commit_guardian_share(&mut state, &guardian_a, 3, &hash_a, vec![5], 12).expect("commit");
    let r = submit_share_precheck(&state, &guardian_a, &args);
    assert!(matches!(r, Err(GuardianError::ShareAlreadySubmitted)));
    let r = commit_guardian_share(&mut state, &guardian_a, 3, &hash_a, vec![5], 13);
    assert!(matches!(r, Err(GuardianError::ShareAlreadySubmitted)));
}

#[test]
fn accept_is_idempotent_for_same_identity_and_refuses_another() {
    let owner = vec![1u8];
    let guardian_a = vec![0xAAu8];
    let intruder = vec![0xCCu8];
    let mut state = GuardianManagerState::new();
    let records = register_guardians(&mut state, &owner, 10, register_args(4, owner.clone(), 2))
        .expect("registered");
    let hash_a = records[0].email_hash.clone();
    let args = AcceptGuardianArgs { vault_id: 4, email_hash: hash_a.clone() };

    accept_invitation(&mut state, guardian_a.clone(), 11, &args).expect("first accept");
    let again = accept_invitation(&mut state, guardian_a.clone(), 12, &args).expect("re-accept");
    assert!(matches!(again.status, GuardianStatus::Accepted));
    let r = accept_invitation(&mut state, intruder, 13, &args);
    assert!(matches!(r, Err(GuardianError::PrincipalMismatch)));
}

#[test]
fn submit_payload_shape_is_checked_first() {
    let state = GuardianManagerState::new();
    let caller = vec![0xAAu8];
    let empty = SubmitShareArgs { vault_id: 1, email_hash: vec![0; 32], share_payload: Vec::new() };
    assert!(matches!(
        submit_share_precheck(&state, &caller, &empty),
        Err(GuardianError::Validation)
    ));
    let oversized = SubmitShareArgs {
        vault_id: 1,
        email_hash: vec![0; 32],
        share_payload: vec![0u8; 4097],
    };
    assert!(matches!(
        submit_share_precheck(&state, &caller, &oversized),
        Err(GuardianError::ShareTooLarge)
    ));
    let missing = SubmitShareArgs { vault_id: 1, email_hash: vec![0; 32], share_payload: vec![1] };
    assert!(matches!(
        submit_share_precheck(&state, &caller, &missing),
        Err(GuardianError::VaultNotFound(1))
    ));
}

#[test]
fn stranger_is_unauthorized_even_after_submission() {
    // access control outranks the stored-share report: a caller who is not
    // the bound identity never learns whether a share exists
    let owner = vec![1u8];
    let guardian_a = vec![0xAAu8];
    let intruder = vec![0xCCu8];
    let mut state = GuardianManagerState::new();
    let records = register_guardians(&mut state, &owner, 10, register_args(8, owner.clone(), 2))
        .expect("registered");
    let hash_a = records[0].email_hash.clone();
    accept_invitation(
        &mut state,
        guardian_a.clone(),
        11,
        &AcceptGuardianArgs { vault_id: 8, email_hash: hash_a.clone() },
    )
    .expect("accept");
    commit_guardian_share(&mut state, &guardian_a, 8, &hash_a, vec![5], 12).expect("commit");

    let args = SubmitShareArgs { vault_id: 8, email_hash: hash_a.clone(), share_payload: vec![1] };
    assert!(matches!(
        submit_share_precheck(&state, &intruder, &args),
        Err(GuardianError::Unauthorized)
    ));
    assert!(matches!(
        commit_guardian_share(&mut state, &intruder, 8, &hash_a, vec![1], 13),
        Err(GuardianError::Unauthorized)
    ));
}

#[test]
fn accept_is_refused_once_share_is_submitted() {
    // ShareSubmitted is terminal: re-acceptance cannot demote the guardian
    let owner = vec![1u8];
    let guardian_a = vec![0xAAu8];
    let mut state = GuardianManagerState::new();
    let records = register_guardians(&mut state, &owner, 10, register_args(9, owner.clone(), 2))
        .expect("registered");
    let hash_a = records[0].email_hash.clone();
    let args = AcceptGuardianArgs { vault_id: 9, email_hash: hash_a.clone() };
    accept_invitation(&mut state, guardian_a.clone(), 11, &args).expect("accept");
    commit_guardian_share(&mut state, &guardian_a, 9, &hash_a, vec![5], 12).expect("commit");
    let r = accept_invitation(&mut state, guardian_a.clone(), 13, &args);
    assert!(matches!(r, Err(GuardianError::ShareAlreadySubmitted)));
    let listed = list_guardians(&state, 9).expect("listed");
    assert!(matches!(listed[0].status, GuardianStatus::ShareSubmitted));
}

#[test]
fn vault_listing_is_ascending_regardless_of_registration_order() {
    let owner = vec![1u8];
    let guardian_a = vec![0xAAu8];
    let mut state = GuardianManagerState::new();
    for vault_id in [9u64, 2, 5] {
        let records =
            register_guardians(&mut state, &owner, 10, register_args(vault_id, owner.clone(), 2))
                .expect("registered");
        let hash_a = records[0].email_hash.clone();
        accept_invitation(
            &mut state,
            guardian_a.clone(),
            11,
            &AcceptGuardianArgs { vault_id, email_hash: hash_a },
        )
        .expect("accept");
    }
    assert_eq!(list_guardian_vaults(&state, &guardian_a), vec![2, 5, 9]);
}

#[test]
fn submit_by_unbound_caller_is_unauthorized() {
    let owner = vec![1u8];
    let guardian_a = vec![0xAAu8];
    let intruder = vec![0xCCu8];
    let mut state = GuardianManagerState::new();
    let records = register_guardians(&mut state, &owner, 10, register_args(5, owner.clone(), 2))
        .expect("registered");
    let hash_a = records[0].email_hash.clone();
    accept_invitation(
        &mut state,
        guardian_a,
        11,
        &AcceptGuardianArgs { vault_id: 5, email_hash: hash_a.clone() },
    )
    .expect("accept");
    let args = SubmitShareArgs { vault_id: 5, email_hash: hash_a.clone(), share_payload: vec![1] };
    let r = submit_share_precheck(&state, &intruder, &args);
    assert!(matches!(r, Err(GuardianError::Unauthorized)));
    let r = commit_guardian_share(&mut state, &intruder, 5, &hash_a, vec![1], 12);
    assert!(matches!(r, Err(GuardianError::Unauthorized)));
}

#[test]
fn lookups_find_guardians_and_vaults() {
    let owner = vec![1u8];
    let guardian_a = vec![0xAAu8];
    let mut state = GuardianManagerState::new();
    let records = register_guardians(&mut state, &owner, 10, register_args(6, owner.clone(), 2))
        .expect("registered");
    let hash_a = records[0].email_hash.clone();

    let listed = list_guardians(&state, 6).expect("listed");
    assert_eq!(listed.len(), 3);
    assert_eq!(listed[0].alias, "Alpha");
    assert!(matches!(list_guardians(&state, 99), Err(GuardianError::VaultNotFound(99))));

    let found = estate_vault::guardian::guardian_by_hash(
        &state,
        &AcceptGuardianArgs { vault_id: 6, email_hash: hash_a.clone() },
    );
    assert!(found.is_some());
    let missing = estate_vault::guardian::guardian_by_hash(
        &state,
        &AcceptGuardianArgs { vault_id: 6, email_hash: vec![0; 32] },
    );
    assert!(missing.is_none());
    let r = accept_invitation(
        &mut state,
        guardian_a.clone(),
        11,
        &AcceptGuardianArgs { vault_id: 6, email_hash: vec![0; 32] },
    );
    assert!(matches!(r, Err(GuardianError::GuardianNotFound)));

    assert_eq!(list_guardian_vaults(&state, &guardian_a), Vec::<u64>::new());
    accept_invitation(
        &mut state,
        guardian_a.clone(),
        11,
        &AcceptGuardianArgs { vault_id: 6, email_hash: hash_a.clone() },
    )
    .expect("accept");
    assert_eq!(list_guardian_vaults(&state, &guardian_a), vec![6]);

    let snap = snapshot_guardian(&state, 6, &hash_a).expect("snapshot");
    assert_eq!(snap.vault_id, 6);
    assert_eq!(snap.guardian_index, 0);
    assert!(matches!(snap.guardian.status, GuardianStatus::Accepted));
}
