//! The installer's transaction journal: what each managed path looked like
//! before a transaction touched it, and how far the transaction got.  It is
//! written as tab-separated text records and read back strictly.

use crate::codec::{
    decode_text, digest_from_hex, digest_hex, encode_text, lemma_decode_encode_text,
    lemma_digest_hex_roundtrip, lemma_parse_octal, octal, parse_octal, spec_decode_text,
    spec_digest_from_hex, spec_digest_hex, spec_encode_hex, spec_octal, spec_parse_octal,
};
use crate::digest::Sha256Digest;
use crate::dracut_systemd::{safe_transaction_id, spec_safe_transaction_id};
use crate::newc::split_on;
use crate::text::{all_in_class, chars_of, str_eq, CharClass};
use vstd::prelude::*;
use vstd::string::*;
use vstd::utf8::*;

verus! {

/// What a managed path held before a transaction.
#[derive(Debug, Clone, PartialEq, Eq)]
pub enum Preimage {
    Absent,
    File { mode: u32, digest: Sha256Digest, backup: String },
    Symlink { target: String },
}

/// A preimage with its text as character sequences.
pub enum PreimageView {
    Absent,
    File { mode: u32, digest: Sha256Digest, backup: Seq<char> },
    Symlink { target: Seq<char> },
}

impl View for Preimage {
    type V = PreimageView;

    open spec fn view(&self) -> PreimageView {
        match self {
            Preimage::Absent => PreimageView::Absent,
            Preimage::File { mode, digest, backup } => PreimageView::File {
                mode: *mode,
                digest: *digest,
                backup: backup@,
            },
            Preimage::Symlink { target } => PreimageView::Symlink { target: target@ },
        }
    }
}

// ---------------------------------------------------------------------------
// Backup references
// ---------------------------------------------------------------------------

/// ASCII alphanumerics and `-`, nonempty.
pub open spec fn backup_name_ok(n: Seq<char>) -> bool {
    n.len() > 0 && all_in_class(n, CharClass::TransactionId)
}

/// `transactions/<transaction>/<name>`, bound to `transaction` when given.
pub open spec fn spec_backup_is_safe(value: Seq<char>, transaction: Option<Seq<char>>) -> bool {
    let parts = split_on(value, '/');
    &&& parts.len() == 3
    &&& parts[0] == "transactions"@
    &&& spec_safe_transaction_id(parts[1])
    &&& transaction matches Some(t) ==> parts[1] == t
    &&& backup_name_ok(parts[2])
}

/// `s` split at every `sep`.
pub fn split_on_exec(s: &[char], sep: char) -> (r: Vec<Vec<char>>)
    ensures
        r@.map_values(|v: Vec<char>| v@) == split_on(s@, sep),
{
    let mut done: Vec<Vec<char>> = Vec::new();
    let mut cur: Vec<char> = Vec::new();
    let mut i: usize = 0;
    assert(s@.take(0) =~= Seq::<char>::empty());
    while i < s.len()
        invariant
            i <= s.len(),
            done@.map_values(|v: Vec<char>| v@).push(cur@) == split_on(s@.take(i as int), sep),
        decreases s.len() - i,
    {
        let c = s[i];
        proof {
            assert(s@.take(i + 1).drop_last() =~= s@.take(i as int));
            assert(s@.take(i + 1).last() == c);
        }
        let ghost before = done@.map_values(|v: Vec<char>| v@);
        if c == sep {
            let finished = cur;
            done.push(finished);
            cur = Vec::new();
            proof {
                assert(done@.map_values(|v: Vec<char>| v@) =~= before.push(finished@));
                assert(done@.map_values(|v: Vec<char>| v@).push(cur@) =~= before.push(finished@).push(
                    Seq::<char>::empty(),
                ));
            }
        } else {
            let ghost old_cur = cur@;
            cur.push(c);
            proof {
                let p = before.push(old_cur);
                assert(p.update(p.len() - 1, p.last().push(c)) =~= before.push(cur@));
            }
        }
        i = i + 1;
    }
    assert(s@.take(s.len() as int) =~= s@);
    let ghost before = done@.map_values(|v: Vec<char>| v@);
    done.push(cur);
    assert(done@.map_values(|v: Vec<char>| v@) =~= before.push(done@[done@.len() - 1]@));
    done
}

fn all_transaction_chars(v: &Vec<char>) -> (r: bool)
    ensures
        r == all_in_class(v@, CharClass::TransactionId),
{
    crate::text::all_chars_in_class(v.as_slice(), CharClass::TransactionId)
}

/// Whether `value` is a safe backup reference.
pub fn backup_is_safe(value: &str, transaction: Option<&str>) -> (r: bool)
    ensures
        r == spec_backup_is_safe(
            value@,
            match transaction {
                Some(t) => Some(t@),
                None => None,
            },
        ),
{
    proof {
        reveal_strlit("transactions");
    }
    let v = chars_of(value);
    let parts = split_on_exec(v.as_slice(), '/');
    let ghost pv = parts@.map_values(|x: Vec<char>| x@);
    if parts.len() != 3 {
        return false;
    }
    let first = crate::text::string_from_chars(parts[0].as_slice());
    let id = crate::text::string_from_chars(parts[1].as_slice());
    assert(pv[0] == parts@[0]@ && pv[1] == parts@[1]@ && pv[2] == parts@[2]@);
    if !str_eq(first.as_str(), "transactions") || !safe_transaction_id(id.as_str()) {
        return false;
    }
    match transaction {
        Some(t) => {
            if !str_eq(id.as_str(), t) {
                return false;
            }
        },
        None => {},
    }
    parts[2].len() > 0 && all_transaction_chars(&parts[2])
}

// ---------------------------------------------------------------------------
// Preimage fields
// ---------------------------------------------------------------------------

/// The four fields that record a preimage.
pub open spec fn spec_preimage_fields(p: PreimageView) -> Seq<Seq<char>> {
    match p {
        PreimageView::Absent => seq!["absent"@, "-"@, "-"@, "-"@],
        PreimageView::File { mode, digest, backup } => seq![
            "file"@,
            spec_octal(mode),
            spec_digest_hex(digest),
            spec_encode_hex(encode_utf8(backup)),
        ],
        PreimageView::Symlink { target } => seq![
            "symlink"@,
            "-"@,
            "-"@,
            spec_encode_hex(encode_utf8(target)),
        ],
    }
}

/// A preimage mode: permission bits only, neither group nor world writable.
pub open spec fn preimage_mode_ok(mode: u32) -> bool {
    mode <= 0o7777 && mode & 0o22u32 == 0
}

/// The preimage that four fields record, checked against `transaction`.
pub open spec fn spec_parse_preimage(fields: Seq<Seq<char>>, transaction: Option<Seq<char>>) -> Option<
    PreimageView,
> {
    if fields.len() != 4 {
        None
    } else if fields[0] == "absent"@ && fields[1] == "-"@ && fields[2] == "-"@ && fields[3] == "-"@ {
        Some(PreimageView::Absent)
    } else if fields[0] == "file"@ {
        match (
            spec_parse_octal(fields[1]),
            spec_digest_from_hex(fields[2]),
            spec_decode_text(fields[3]),
        ) {
            (Some(mode), Some(digest), Some(backup)) => if preimage_mode_ok(mode)
                && spec_backup_is_safe(backup, transaction) {
                Some(PreimageView::File { mode, digest, backup })
            } else {
                None
            },
            _ => None,
        }
    } else if fields[0] == "symlink"@ && fields[1] == "-"@ && fields[2] == "-"@ {
        match spec_decode_text(fields[3]) {
            Some(target) => Some(PreimageView::Symlink { target }),
            None => None,
        }
    } else {
        None
    }
}

/// A preimage that its fields can record faithfully.
pub open spec fn preimage_ok(p: PreimageView, transaction: Option<Seq<char>>) -> bool {
    match p {
        PreimageView::File { mode, backup, .. } => preimage_mode_ok(mode) && spec_backup_is_safe(
            backup,
            transaction,
        ),
        _ => true,
    }
}

/// Reading a preimage's fields gives the preimage back.
pub proof fn lemma_preimage_roundtrip(p: PreimageView, transaction: Option<Seq<char>>)
    requires
        preimage_ok(p, transaction),
    ensures
        spec_parse_preimage(spec_preimage_fields(p), transaction) == Some(p),
{
    reveal_strlit("absent");
    reveal_strlit("file");
    reveal_strlit("symlink");
    reveal_strlit("-");
    match p {
        PreimageView::Absent => {},
        PreimageView::File { mode, digest, backup } => {
            lemma_parse_octal(mode);
            lemma_digest_hex_roundtrip(digest);
            lemma_decode_encode_text(backup);
            assert("file"@ != "absent"@) by {
                assert("file"@.len() != "absent"@.len());
            }
        },
        PreimageView::Symlink { target } => {
            lemma_decode_encode_text(target);
            assert("symlink"@ != "absent"@) by {
                assert("symlink"@.len() != "absent"@.len());
            }
            assert("symlink"@ != "file"@) by {
                assert("symlink"@.len() != "file"@.len());
            }
        },
    }
}

/// The four fields of `p`.
pub fn preimage_fields(p: &Preimage) -> (r: Vec<String>)
    ensures
        r@.map_values(|s: String| s@) == spec_preimage_fields(p@),
{
    let r = match p {
        Preimage::Absent => vec![
            String::from_str("absent"),
            String::from_str("-"),
            String::from_str("-"),
            String::from_str("-"),
        ],
        Preimage::File { mode, digest, backup } => vec![
            String::from_str("file"),
            octal(*mode),
            digest_hex(*digest),
            encode_text(backup.as_str()),
        ],
        Preimage::Symlink { target } => vec![
            String::from_str("symlink"),
            String::from_str("-"),
            String::from_str("-"),
            encode_text(target.as_str()),
        ],
    };
    assert(r@.map_values(|s: String| s@) =~= spec_preimage_fields(p@));
    r
}

/// Reads a preimage from four fields.
pub fn parse_preimage(fields: &[String], transaction: Option<&str>) -> (r: Option<Preimage>)
    ensures
        r is Some <==> spec_parse_preimage(
            fields@.map_values(|s: String| s@),
            match transaction {
                Some(t) => Some(t@),
                None => None,
            },
        ) is Some,
        r matches Some(p) ==> Some(p@) == spec_parse_preimage(
            fields@.map_values(|s: String| s@),
            match transaction {
                Some(t) => Some(t@),
                None => None,
            },
        ),
{
    proof {
        reveal_strlit("absent");
        reveal_strlit("file");
        reveal_strlit("symlink");
        reveal_strlit("-");
    }
    let ghost fv = fields@.map_values(|s: String| s@);
    if fields.len() != 4 {
        return None;
    }
    assert(fv[0] == fields@[0]@ && fv[1] == fields@[1]@ && fv[2] == fields@[2]@ && fv[3]
        == fields@[3]@);
    let f0 = fields[0].as_str();
    let f1 = fields[1].as_str();
    let f2 = fields[2].as_str();
    let f3 = fields[3].as_str();
    if str_eq(f0, "absent") && str_eq(f1, "-") && str_eq(f2, "-") && str_eq(f3, "-") {
        return Some(Preimage::Absent);
    }
    if str_eq(f0, "file") {
        let mode = match parse_octal(f1) {
            Some(m) => m,
            None => {
                return None;
            },
        };
        let digest = match digest_from_hex(f2) {
            Some(d) => d,
            None => {
                return None;
            },
        };
        let backup = match decode_text(f3) {
            Some(b) => b,
            None => {
                return None;
            },
        };
        if mode > 0o7777 || mode & 0o22u32 != 0 || !backup_is_safe(backup.as_str(), transaction) {
            return None;
        }
        return Some(Preimage::File { mode, digest, backup });
    }
    if str_eq(f0, "symlink") && str_eq(f1, "-") && str_eq(f2, "-") {
        let target = match decode_text(f3) {
            Some(t) => t,
            None => {
                return None;
            },
        };
        return Some(Preimage::Symlink { target });
    }
    None
}

} // verus!
