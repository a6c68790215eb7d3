use vstd::prelude::*;
use std::collections::HashMap;
use vstd::utf8::encode_utf8;
use crate::digest::{hex_of, hex_digit, lemma_hex_len, sha256, sha256_of};
use crate::error::PapError;
use crate::progress::{stage_named, Progress};

verus! {

/// A point in time: whole seconds since the Unix epoch and the nanoseconds after them.
#[derive(Debug, Clone, Copy, PartialEq, Eq, Structural)]
pub struct Timestamp {
    pub secs: i64,
    pub nanos: u32,
}

/// A number that orders optional timestamps: seconds first, then nanoseconds,
/// and no timestamp before every timestamp.
pub open spec fn rank(t: Option<Timestamp>) -> int {
    match t {
        None => -0x8000_0000_0000_0000 * 0x1_0000_0000 - 1,
        Some(t) => t.secs * 0x1_0000_0000 + t.nanos,
    }
}

/// Whether `a` comes strictly before `b` (no timestamp comes first).
pub fn earlier(a: Option<Timestamp>, b: Option<Timestamp>) -> (r: bool)
    ensures
        r == (rank(a) < rank(b)),
{
    match (a, b) {
        (None, None) => false,
        (None, Some(_)) => true,
        (Some(_), None) => false,
        (Some(x), Some(y)) => x.secs < y.secs || (x.secs == y.secs && x.nanos < y.nanos),
    }
}

/// A paper's reading notes.
///
/// `last_changed` is when its stored file was last modified; it is set when a
/// record is loaded and is never part of the stored text.
#[derive(Debug)]
pub struct Paper {
    pub title: String,
    pub description: String,
    pub doi: String,
    pub progress: Progress,
    pub tags: Vec<String>,
    pub refs: HashMap<String, Vec<String>>,
    pub last_changed: Option<Timestamp>,
}

/// The identity of a record with this title: the first sixteen lowercase hex
/// digits of the SHA-256 digest of its UTF-8 bytes.
pub open spec fn identity_of(title: Seq<char>) -> Seq<char> {
    hex_of(sha256_of(encode_utf8(title)).subrange(0, 8))
}

/// `n` spaces.
pub open spec fn spaces(n: nat) -> Seq<char>
    decreases n,
{
    if n == 0 {
        Seq::empty()
    } else {
        spaces((n - 1) as nat).push(' ')
    }
}

/// A title laid out in `w` columns: padded with spaces when it fits in
/// `w - 3`, otherwise cut to `w - 3` characters followed by `...`.
pub open spec fn fit_title(t: Seq<char>, w: nat) -> Seq<char> {
    if t.len() + 3 <= w {
        t + spaces((w - t.len()) as nat)
    } else {
        t.subrange(0, w - 3) + seq!['.', '.', '.']
    }
}

/// A record's identity depends on its title and on nothing else: two records
/// with the same title have the same identity, whatever their other fields.
pub proof fn lemma_identity_from_title_only(a: &Paper, b: &Paper)
    requires
        a.title@ == b.title@,
    ensures
        identity_of(a.title@) == identity_of(b.title@),
{
}

impl Paper {
    /// A record that has not been stored yet.
    pub fn new(
        title: String,
        description: String,
        doi: String,
        progress: Progress,
        tags: Vec<String>,
        refs: HashMap<String, Vec<String>>,
    ) -> (r: Paper)
        ensures
            r.title == title,
            r.description == description,
            r.doi == doi,
            r.progress == progress,
            r.tags == tags,
            r.refs == refs,
            r.last_changed is None,
    {
        Paper { title, description, doi, progress, tags, refs, last_changed: None }
    }

    /// The record's identity, which also names its directory in the store.
    pub fn hash(&self) -> (r: String)
        ensures
            r@ == identity_of(self.title@),
            r@.len() == 16,
    {
        let digest = sha256(self.title.as_str().as_bytes());
        let ghost d = digest@;
        let mut out = String::new();
        let mut i: usize = 0;
        while i < 8
            invariant
                digest@ == d,
                d.len() == 32,
                i <= 8,
                out@ == hex_of(d.subrange(0, i as int)),
            decreases 8 - i,
        {
            let b = digest[i];
            out.append(hex_digit(b / 16));
            out.append(hex_digit(b % 16));
            assert(d.subrange(0, i + 1).drop_last() =~= d.subrange(0, i as int));
            assert(out@ =~= hex_of(d.subrange(0, i + 1)));
            i = i + 1;
        }
        proof {
            lemma_hex_len(d.subrange(0, 8));
        }
        out
    }

    /// The title laid out in `max_length` columns (see `fit_title`).
    pub fn title(&self, max_length: usize) -> (r: String)
        requires
            max_length >= 3,
        ensures
            r@ == fit_title(self.title@, max_length as nat),
    {
        proof {
            reveal_strlit(" ");
            reveal_strlit("...");
            assert(" "@ =~= seq![' ']);
            assert("..."@ =~= seq!['.', '.', '.']);
        }
        let n = self.title.as_str().unicode_len();
        if n <= max_length - 3 {
            let mut out = self.title.clone();
            let mut k: usize = n;
            assert(out@ =~= self.title@ + spaces(0));
            while k < max_length
                invariant
                    n == self.title@.len(),
                    n <= k <= max_length,
                    " "@ == seq![' '],
                    out@ == self.title@ + spaces((k - n) as nat),
                decreases max_length - k,
            {
                out.append(" ");
                assert(spaces((k + 1 - n) as nat) == spaces((k - n) as nat).push(' '));
                assert(out@ =~= self.title@ + spaces((k + 1 - n) as nat));
                k = k + 1;
            }
            out
        } else {
            let head = self.title.as_str().substring_char(0, max_length - 3);
            let mut out = head.to_owned();
            out.append("...");
            out
        }
    }

    /// Sets the reading stage from a token (`I`, `II`, `III` or `IV`); any stage
    /// may follow any other. An unknown token leaves the record as it was.
    pub fn mark(&mut self, progress: &str) -> (r: Result<(), PapError>)
        ensures
            stage_named(progress@) matches Some(p) ==> r is Ok && final(self).progress == p,
            stage_named(progress@) is None ==> (r matches Err(PapError::InvalidStage(s))
                && s@ == progress@ && final(self).progress == old(self).progress),
            final(self).title == old(self).title,
            final(self).description == old(self).description,
            final(self).doi == old(self).doi,
            final(self).tags == old(self).tags,
            final(self).refs == old(self).refs,
            final(self).last_changed == old(self).last_changed,
    {
        match Progress::parse(progress) {
            Ok(p) => {
                self.progress = p;
                Ok(())
            },
            Err(e) => Err(e),
        }
    }
}

} // verus!
