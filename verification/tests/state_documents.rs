use bootart::codec::{
    decode_hex, decode_text, digest_from_hex, digest_hex, encode_hex, encode_text, octal,
    parse_octal,
};
use bootart::digest::sha256;
use bootart::error::InstallError;
use bootart::journal::{
    parse_journal, payload_parent_allowed, payload_path_allowed, serialize_journal,
    state_dir_allowed, EntryProgress, Journal, JournalEntry, JournalPhase, TransactionKind,
};
use bootart::state::{backup_is_safe, parse_preimage, preimage_fields, Preimage};

const ABC_DIGEST: &str = "ba7816bf8f01cfea414140de5dae2223b00361a396177a9cb410ff61f20015ad";

fn strings(items: &[&str]) -> Vec<String> {
    items.iter().map(|s| s.to_string()).collect()
}

#[test]
fn hex_round_trips_bytes_and_text() {
    assert_eq!(encode_hex(&[0x00, 0xab, 0xff]), "00abff");
    assert_eq!(decode_hex("00abff"), Some(vec![0x00, 0xab, 0xff]));
    assert_eq!(decode_hex(""), Some(vec![]));
    assert_eq!(decode_hex("0"), None);
    assert_eq!(decode_hex("AB"), None);
    assert_eq!(decode_hex("zz"), None);
    assert_eq!(encode_text("/usr/bin/bootart"), "2f7573722f62696e2f626f6f74617274");
    assert_eq!(decode_text("2f7573722f62696e2f626f6f74617274"), Some("/usr/bin/bootart".to_string()));
    assert_eq!(decode_text("ff"), None);
}

#[test]
fn octal_modes_read_as_from_str_radix() {
    assert_eq!(octal(0o755), "755");
    assert_eq!(octal(0), "0");
    assert_eq!(parse_octal("755"), Some(0o755));
    assert_eq!(parse_octal("+17"), Some(0o17));
    assert_eq!(parse_octal("0644"), Some(0o644));
    assert_eq!(parse_octal("8"), None);
    assert_eq!(parse_octal(""), None);
    assert_eq!(parse_octal("+"), None);
    assert_eq!(parse_octal("-1"), None);
    assert_eq!(parse_octal("37777777777"), Some(u32::MAX));
    assert_eq!(parse_octal("40000000000"), None);
}

#[test]
fn digests_are_sixty_four_lowercase_hex_digits() {
    let digest = sha256(b"abc");
    assert_eq!(digest_hex(digest), ABC_DIGEST);
    assert_eq!(digest_from_hex(ABC_DIGEST), Some(digest));
    assert_eq!(digest_from_hex(&ABC_DIGEST.to_uppercase()), None);
    assert_eq!(digest_from_hex(&ABC_DIGEST[1..]), None);
}

#[test]
fn backups_stay_inside_their_transaction() {
    assert!(backup_is_safe("transactions/tx-1/b0", Some("tx-1")));
    assert!(backup_is_safe("transactions/tx-1/b0", None));
    assert!(!backup_is_safe("transactions/tx-2/b0", Some("tx-1")));
    assert!(!backup_is_safe("transactions/tx-1/../b0", Some("tx-1")));
    assert!(!backup_is_safe("transactions/tx-1/", Some("tx-1")));
    assert!(!backup_is_safe("backups/tx-1/b0", None));
}

#[test]
fn preimage_fields_read_back() {
    let file = Preimage::File {
        mode: 0o644,
        digest: sha256(b"abc"),
        backup: "transactions/tx-1/b0".to_string(),
    };
    let fields = preimage_fields(&file);
    assert_eq!(
        fields,
        strings(&["file", "644", ABC_DIGEST, "7472616e73616374696f6e732f74782d312f6230"])
    );
    assert_eq!(parse_preimage(&fields, Some("tx-1")), Some(file));
    assert_eq!(parse_preimage(&fields, Some("tx-2")), None);
    let absent = preimage_fields(&Preimage::Absent);
    assert_eq!(absent, strings(&["absent", "-", "-", "-"]));
    assert_eq!(parse_preimage(&absent, None), Some(Preimage::Absent));
    let link = Preimage::Symlink { target: "/etc/x".to_string() };
    assert_eq!(preimage_fields(&link), strings(&["symlink", "-", "-", "2f6574632f78"]));
    assert_eq!(parse_preimage(&preimage_fields(&link), None), Some(link));
    let writable = strings(&["file", "666", ABC_DIGEST, "7472616e73616374696f6e732f74782d312f6230"]);
    assert_eq!(parse_preimage(&writable, None), None);
}

#[test]
fn the_allowlist_names_bootart_paths_only() {
    assert!(payload_path_allowed("/usr/bin/bootart"));
    assert!(payload_path_allowed("/usr/share/mkinitfs/initramfs-init"));
    assert!(payload_path_allowed("/etc/runlevels/boot/bootart"));
    assert!(!payload_path_allowed("/etc/passwd"));
    assert!(payload_parent_allowed("/usr/lib/bootart"));
    assert!(payload_parent_allowed("/usr"));
    assert!(!payload_parent_allowed("/"));
    assert!(!payload_parent_allowed("/usr/"));
    assert!(!payload_parent_allowed("usr"));
    assert!(!payload_parent_allowed("/us"));
    assert!(state_dir_allowed("/var/lib/bootart/install/transactions"));
    assert!(!state_dir_allowed("/var/lib/other"));
}

fn install_journal() -> Journal {
    Journal {
        transaction: "tx-1".to_string(),
        kind: TransactionKind::Install,
        phase: JournalPhase::Ready,
        entries: vec![JournalEntry {
            path: "/usr/bin/bootart".to_string(),
            preimage: Preimage::Absent,
            progress: EntryProgress::Applied,
        }],
        previous_manifest: Preimage::Absent,
        created_dirs: vec!["/usr/lib/bootart".to_string()],
        state_created_dirs: vec!["/var/lib/bootart".to_string()],
        rollback_created_dirs: vec![],
    }
}

const INSTALL_TEXT: &str = "BOOTART-JOURNAL\t1\ntransaction\ttx-1\nkind\tinstall\nphase\tready\nprevious-manifest\tabsent\t-\t-\t-\ncreated-dir\t2f7573722f6c69622f626f6f74617274\nstate-created-dir\t2f7661722f6c69622f626f6f74617274\nfile\t2f7573722f62696e2f626f6f74617274\tapplied\tabsent\t-\t-\t-\n";

fn corrupt(bytes: &[u8]) -> bool {
    matches!(parse_journal(bytes), Err(InstallError::CorruptJournal(_)))
}

#[test]
fn a_journal_is_written_as_tab_separated_records() {
    let bytes = serialize_journal(&install_journal());
    assert_eq!(String::from_utf8(bytes).unwrap(), INSTALL_TEXT);
}

#[test]
fn a_written_journal_reads_back_with_rollback_directories_filled_in() {
    let journal = install_journal();
    let parsed = parse_journal(&serialize_journal(&journal)).unwrap();
    let mut expected = journal;
    expected.rollback_created_dirs = vec!["/var/lib/bootart".to_string()];
    assert_eq!(parsed, expected);
    let again = parse_journal(&serialize_journal(&parsed)).unwrap();
    assert_eq!(again, parsed);
}

#[test]
fn an_uninstall_journal_reads_back_unchanged() {
    let journal = Journal {
        transaction: "tx-9".to_string(),
        kind: TransactionKind::Uninstall,
        phase: JournalPhase::Cleanup,
        entries: vec![JournalEntry {
            path: "/usr/bin/bootart".to_string(),
            preimage: Preimage::File {
                mode: 0o755,
                digest: sha256(b"abc"),
                backup: "transactions/tx-9/b0".to_string(),
            },
            progress: EntryProgress::InProgress,
        }],
        previous_manifest: Preimage::File {
            mode: 0o644,
            digest: sha256(b"manifest"),
            backup: "transactions/tx-9/manifest".to_string(),
        },
        created_dirs: vec![],
        state_created_dirs: vec![],
        rollback_created_dirs: vec![],
    };
    assert_eq!(parse_journal(&serialize_journal(&journal)).unwrap(), journal);
}

#[test]
fn journals_that_break_a_rule_are_corrupt() {
    assert!(corrupt(&[0xff, 0xfe]));
    assert!(corrupt(INSTALL_TEXT.replace("BOOTART-JOURNAL\t1", "BOOTART-JOURNAL\t2").as_bytes()));
    assert!(corrupt(b"BOOTART-JOURNAL\t1\ntransaction\ttx-1\n"));
    assert!(corrupt(INSTALL_TEXT.replace("tx-1", "tx 1").as_bytes()));
    assert!(corrupt(INSTALL_TEXT.replace("kind\tinstall", "kind\tupgrade").as_bytes()));
    assert!(corrupt(INSTALL_TEXT.replace("phase\tready", "phase\tcleanup").as_bytes()));
    assert!(corrupt(INSTALL_TEXT.replace("phase\tready", "phase\tbootstrap").as_bytes()));
    assert!(corrupt(INSTALL_TEXT.replace("\tapplied\t", "\tdone\t").as_bytes()));
    let duplicate = format!("{INSTALL_TEXT}file\t2f7573722f62696e2f626f6f74617274\tplanned\tabsent\t-\t-\t-\n");
    assert!(corrupt(duplicate.as_bytes()));
    let outside = format!("{INSTALL_TEXT}file\t2f6574632f78\tplanned\tabsent\t-\t-\t-\n");
    assert!(corrupt(outside.as_bytes()));
    let unknown = format!("{INSTALL_TEXT}note\thello\n");
    assert!(corrupt(unknown.as_bytes()));
    let rollback_outside = format!("{INSTALL_TEXT}rollback-created-dir\t2f766172\n");
    assert!(corrupt(rollback_outside.as_bytes()));
    let only_header = "BOOTART-JOURNAL\t1\ntransaction\ttx-1\nkind\tinstall\nphase\tready\nprevious-manifest\tabsent\t-\t-\t-\n";
    assert!(corrupt(only_header.as_bytes()));
}

#[test]
fn crlf_line_ends_are_read_as_line_ends() {
    let crlf = INSTALL_TEXT.replace('\n', "\r\n");
    assert_eq!(
        parse_journal(crlf.as_bytes()).unwrap(),
        parse_journal(INSTALL_TEXT.as_bytes()).unwrap()
    );
}
