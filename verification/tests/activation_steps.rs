use faba_plus::activation::{
    activation_next, activation_start, failure_message, ActivationFailure, ActivationState, ActivationStep,
};
use faba_plus::card::{backup_base_name, CardKind, CardSnapshot};
use faba_plus::commands::backup_card_name;
use faba_plus::server::auth::{check_email, validate_registration};
use faba_plus::server::ApiError;
use faba_plus::storage::LibraryDatabase;
use faba_plus::diagnostics::DiagnosticLogger;
use faba_plus::digest::{hex_encode, sha256_hex_of};
use faba_plus::managed::allocate_ids;

#[test]
fn a_new_figure_folder_is_activated_directly() {
    let (state, step) = activation_start(false);
    assert_eq!(step, ActivationStep::Activate);
    assert_eq!(activation_next(state, true).1, ActivationStep::Stop(None));
    assert_eq!(
        activation_next(state, false).1,
        ActivationStep::Stop(Some(ActivationFailure::Finalize))
    );
}

#[test]
fn a_replaced_figure_folder_is_set_aside_then_removed() {
    let (state, step) = activation_start(true);
    assert_eq!(step, ActivationStep::SetAsidePrevious);
    assert_eq!(
        activation_next(state, false),
        (ActivationState::Finished, ActivationStep::Stop(Some(ActivationFailure::SetAside)))
    );
    let (state, step) = activation_next(state, true);
    assert_eq!(step, ActivationStep::Activate);
    let (removing, step) = activation_next(state, true);
    assert_eq!(step, ActivationStep::RemovePrevious);
    assert_eq!(activation_next(removing, true).1, ActivationStep::Stop(None));
    assert_eq!(
        activation_next(removing, false).1,
        ActivationStep::Stop(Some(ActivationFailure::Cleanup))
    );
}

#[test]
fn a_failed_replacement_puts_the_old_folder_back() {
    let (state, _) = activation_start(true);
    let (state, _) = activation_next(state, true);
    let (state, step) = activation_next(state, false);
    assert_eq!(step, ActivationStep::RestorePrevious);
    let (_, step) = activation_next(state, true);
    assert_eq!(step, ActivationStep::Stop(Some(ActivationFailure::Restored)));
    assert_eq!(
        failure_message(ActivationFailure::Restored),
        "Le remplacement a échoué ; l'ancienne version a été restaurée."
    );
    assert!(failure_message(ActivationFailure::Cleanup).is_empty());
}

#[test]
fn batch_ids_are_allocated_in_order() {
    let used = vec!["2000".to_string(), "2002".to_string()];
    assert_eq!(allocate_ids(&used, 3), vec!["2001", "2003", "2004"]);
    assert!(allocate_ids(&used, 0).is_empty());
    let full = (2000..=8999).map(|n| n.to_string()).filter(|n| n != "8998").collect::<Vec<_>>();
    assert_eq!(allocate_ids(&full, 2), vec!["8998"]);
}

#[test]
fn hex_and_digests_are_lowercase() {
    assert_eq!(hex_encode(&[0x00, 0x0f, 0xa5, 0xff]), "000fa5ff");
    assert_eq!(hex_encode(&[]), "");
    assert_eq!(
        sha256_hex_of(b"abc"),
        "ba7816bf8f01cfea414140de5dae2223b00361a396177a9cb410ff61f20015ad"
    );
}

#[test]
fn journal_times_and_backup_stamps_have_their_form() {
    let logger = DiagnosticLogger::new("journal.log".into());
    let line = logger.info("app.start", "ok");
    let stamp = line.split(' ').next().unwrap();
    assert_eq!(stamp.len(), 24);
    assert!(stamp.ends_with('Z'));
    assert_eq!(&stamp[19..20], ".");
    assert!(line.ends_with(" [INFO] app.start | ok\n"));
    let name = backup_base_name("K0742");
    assert!(name.starts_with("K0742-"));
    let stamp = &name["K0742-".len()..];
    assert_eq!(stamp.len(), 15);
    assert_eq!(&stamp[8..9], "-");
    assert!(stamp.chars().filter(|c| *c != '-').all(|c| c.is_ascii_digit()));
}

#[test]
fn card_names_come_from_the_last_path_component() {
    assert_eq!(backup_card_name("/media/NO NAME"), "NO-NAME");
    assert_eq!(backup_card_name("FABA"), "FABA");
    assert_eq!(backup_card_name("/"), "card");
    let mut db = LibraryDatabase::new("library.sqlite3".into());
    let snapshot = CardSnapshot {
        root_path: "/media/FABA_SD".into(),
        kind: CardKind::Empty,
        writable: true,
        figures: vec![],
        warnings: vec![],
    };
    db.sync_snapshot(&snapshot);
    let recent = db.recent_cards();
    assert_eq!(recent[0].label, "FABA_SD");
    assert!(recent[0].last_seen_at.ends_with("+00:00"));
    assert_eq!(&recent[0].last_seen_at[4..5], "-");
}

#[test]
fn registrations_are_checked_in_order() {
    assert_eq!(check_email("edwin@example.com".into()).ok().unwrap(), "edwin@example.com");
    assert!(check_email("edwin@example.".into()).is_err());
    assert!(check_email("@example.com".into()).is_err());
    let refused = |email: &str, name: &str, password: &str| match validate_registration(email, name, password) {
        Err(ApiError::Validation(message)) => message,
        _ => String::new(),
    };
    assert_eq!(refused("invalid", "", "court"), "Saisissez une adresse e-mail valide.");
    assert_eq!(refused("a@b.fr", " ", "court"), "Le nom doit contenir entre 1 et 80 caractères.");
    assert_eq!(refused("a@b.fr", "Edwin", "court"), "Le mot de passe doit contenir au moins 10 caractères.");
    let (email, name) = validate_registration(" A@B.fr ", " Edwin ", "phrase-secrete-solide").ok().unwrap();
    assert_eq!(email, "a@b.fr");
    assert_eq!(name, "Edwin");
}
