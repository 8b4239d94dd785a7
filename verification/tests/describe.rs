use bootart::adapter::{AdapterId, AdapterKind};
use bootart::error::{FailurePoint, InstallError};

#[test]
fn refusals_read_as_the_installer_words_them() {
    assert_eq!(
        InstallError::FileTooLarge { path: "/r".into(), size: 12, limit: 10 }.describe(),
        "file /r is 12 bytes, above the hard 10-byte limit"
    );
    assert_eq!(
        InstallError::AmbiguousAdapters {
            kind: AdapterKind::InitramfsRuntime,
            candidates: vec![AdapterId::DracutSystemd, AdapterId::MkinitfsBusybox],
        }
        .describe(),
        format!(
            "multiple {:?} adapters were detected: {:?}",
            AdapterKind::InitramfsRuntime,
            vec![AdapterId::DracutSystemd, AdapterId::MkinitfsBusybox]
        )
    );
    assert_eq!(
        InstallError::ManagedFilesModified(vec!["/a".into(), "/b".into()]).describe(),
        "managed files were modified: /a, /b"
    );
    assert_eq!(
        InstallError::CleanupFailed(vec!["x".into(), "y".into()]).describe(),
        "transaction cleanup failed: x; y"
    );
    let point = FailurePoint::BeforePayload { index: 3, path: "/usr/bin/\"b\"".into() };
    assert_eq!(
        InstallError::InjectedFailure { point: point.clone(), message: "m".into() }.describe(),
        format!("injected failure at {:?}: m", point)
    );
    assert_eq!(
        InstallError::MutationIdentityMismatch { effective_uid: 1000, required_uid: 0 }.describe(),
        "effective uid 1000 cannot mutate a tree requiring uid 0"
    );
}
