//! The bounded download: what is kept of a response's body never exceeds a
//! cap, whatever the server declares or sends.
//!
//! The caller makes the request and reads from the connection. This module
//! decides how much may still be read, keeps what arrives, and hands back the
//! bytes that go to the file.

use vstd::prelude::*;
use vstd::slice::slice_subrange;
use crate::text::{length_of_text, parse_length, LengthError};

verus! {

/// Why a download failed.
#[derive(Clone, Copy, Debug, PartialEq, Eq, Structural)]
pub enum DlFileError {
    /// The file could not be created or written.
    IO,
    /// The request failed on the way, or the server answered with a status
    /// that is no success.
    Ureq,
    /// The server declared a content length that is no count.
    Parse(LengthError),
}

/// A download in progress, as contracts see it.
pub struct DownloadView {
    /// The most that is ever kept.
    pub cap: u64,
    /// How much the body was expected to hold when the download began.
    pub hint: u64,
    /// What has been kept so far.
    pub body: Seq<u8>,
}

/// The first `cap` of `bytes`, or all of them where they are fewer.
pub open spec fn capped(bytes: Seq<u8>, cap: u64) -> Seq<u8> {
    if bytes.len() <= cap {
        bytes
    } else {
        bytes.take(cap as int)
    }
}

/// How large the body is expected to be: what the server declared, or the cap
/// where it declared nothing. A declaration that is no count is an error.
pub open spec fn sizing_hint(declared: Option<Seq<char>>, cap: u64) -> Result<u64, DlFileError> {
    match declared {
        None => Ok(cap),
        Some(text) => match length_of_text(text) {
            Ok(n) => Ok(n),
            Err(e) => Err(DlFileError::Parse(e)),
        },
    }
}

/// The download as it begins: nothing kept yet.
pub open spec fn opened(declared: Option<Seq<char>>, cap: u64) -> Result<
    DownloadView,
    DlFileError,
> {
    match sizing_hint(declared, cap) {
        Ok(hint) => Ok(DownloadView { cap, hint, body: Seq::empty() }),
        Err(e) => Err(e),
    }
}

/// The chunks of `chunks` one after the other.
pub open spec fn concat(chunks: Seq<Seq<u8>>) -> Seq<u8>
    decreases chunks.len(),
{
    if chunks.len() == 0 {
        Seq::empty()
    } else {
        concat(chunks.drop_last()) + chunks.last()
    }
}

impl DownloadView {
    /// How many more bytes may be kept.
    pub open spec fn remaining(self) -> int {
        self.cap - self.body.len()
    }

    /// The download after `chunk` has arrived: the chunk is kept as far as
    /// the cap allows.
    pub open spec fn fed(self, chunk: Seq<u8>) -> DownloadView {
        DownloadView { body: capped(self.body + chunk, self.cap), ..self }
    }

    /// The download after each of `chunks` has arrived, in order.
    pub open spec fn fed_all(self, chunks: Seq<Seq<u8>>) -> DownloadView
        decreases chunks.len(),
    {
        if chunks.len() == 0 {
            self
        } else {
            self.fed_all(chunks.drop_last()).fed(chunks.last())
        }
    }
}

/// The text of an optional header value.
pub open spec fn header_text(declared: Option<&str>) -> Option<Seq<char>> {
    match declared {
        Some(text) => Some(text@),
        None => None,
    }
}

/// A download in progress.
pub struct Download {
    cap: u64,
    hint: u64,
    body: Vec<u8>,
}

impl View for Download {
    type V = DownloadView;

    closed spec fn view(&self) -> DownloadView {
        DownloadView { cap: self.cap, hint: self.hint, body: self.body@ }
    }
}

impl Download {
    #[verifier::type_invariant]
    spec fn within_cap(&self) -> bool {
        self.body@.len() <= self.cap
    }

    /// Begins a download that keeps at most `max_size` bytes.
    /// `content_length` is the value of the response's header of that name,
    /// where it has one. It sizes the buffer and nothing else; a value that
    /// is no count fails the download.
    pub fn open(content_length: Option<&str>, max_size: u64) -> (r: Result<Download, DlFileError>)
        ensures
            match opened(header_text(content_length), max_size) {
                Ok(begun) => r is Ok && r->Ok_0@ == begun,
                Err(e) => r is Err && r->Err_0 == e,
            },
    {
        let hint = match content_length {
            Some(text) => match parse_length(text) {
                Ok(n) => n,
                Err(e) => {
                    return Err(DlFileError::Parse(e));
                },
            },
            None => max_size,
        };
        let room = if hint < max_size {
            hint
        } else {
            max_size
        };
        let mut body: Vec<u8> = Vec::new();
        if room <= usize::MAX as u64 {
            let _ = body.try_reserve(room as usize);
        }
        Ok(Download { cap: max_size, hint, body })
    }

    /// The cap this download began with.
    pub fn cap(&self) -> (cap: u64)
        ensures
            cap == self@.cap,
    {
        self.cap
    }

    /// How large the body was expected to be when the download began.
    pub fn hint(&self) -> (hint: u64)
        ensures
            hint == self@.hint,
    {
        self.hint
    }

    /// How many bytes have been kept.
    pub fn len(&self) -> (n: usize)
        ensures
            n == self@.body.len(),
            n <= self@.cap,
    {
        proof {
            use_type_invariant(self);
        }
        self.body.len()
    }

    /// How many more bytes may be read. At 0 the download is complete,
    /// whether or not the server has more to send.
    pub fn remaining(&self) -> (n: u64)
        ensures
            n == self@.remaining(),
    {
        proof {
            use_type_invariant(self);
        }
        self.cap - self.body.len() as u64
    }

    /// Takes in a chunk that was read from the connection and says how many
    /// of its bytes were kept: all of them, or as many as the cap still
    /// allows.
    pub fn accept(&mut self, chunk: &[u8]) -> (kept: usize)
        ensures
            final(self)@ == old(self)@.fed(chunk@),
            final(self)@.body.len() <= final(self)@.cap,
            kept == final(self)@.body.len() - old(self)@.body.len(),
            kept <= chunk@.len(),
    {
        proof {
            use_type_invariant(&*self);
        }
        let room = self.cap - self.body.len() as u64;
        let kept: usize = if chunk.len() as u64 <= room {
            chunk.len()
        } else {
            room as usize
        };
        let mut body: Vec<u8> = Vec::new();
        core::mem::swap(&mut self.body, &mut body);
        body.extend_from_slice(slice_subrange(chunk, 0, kept));
        proof {
            let before = old(self).body@;
            assert(body@ =~= before + chunk@.subrange(0, kept as int));
            assert(body@ =~= capped(before + chunk@, self.cap));
        }
        self.body = body;
        kept
    }

    /// The bytes that were kept: what goes to the file.
    pub fn into_bytes(self) -> (bytes: Vec<u8>)
        ensures
            bytes@ == self@.body,
            bytes@.len() <= self@.cap,
    {
        proof {
            use_type_invariant(&self);
        }
        self.body
    }
}

/// What is kept never exceeds the cap, whatever arrives and in however many
/// chunks.
pub proof fn lemma_never_over_cap(start: DownloadView, chunks: Seq<Seq<u8>>)
    requires
        start.body.len() <= start.cap,
    ensures
        start.fed_all(chunks).body.len() <= start.cap,
        start.fed_all(chunks).cap == start.cap,
        start.fed_all(chunks).hint == start.hint,
    decreases chunks.len(),
{
    if chunks.len() > 0 {
        lemma_never_over_cap(start, chunks.drop_last());
    }
}

/// What is kept is the beginning of what was sent, cut at the cap: how the
/// body was split into chunks makes no difference.
pub proof fn lemma_keeps_the_beginning(start: DownloadView, chunks: Seq<Seq<u8>>)
    requires
        start.body.len() <= start.cap,
    ensures
        start.fed_all(chunks).body == capped(start.body + concat(chunks), start.cap),
    decreases chunks.len(),
{
    if chunks.len() == 0 {
        assert(start.body + concat(chunks) =~= start.body);
    } else {
        let earlier = chunks.drop_last();
        lemma_keeps_the_beginning(start, earlier);
        lemma_never_over_cap(start, earlier);
        let sent = start.body + concat(earlier);
        assert(start.body + concat(chunks) =~= sent + chunks.last());
        assert(capped(capped(sent, start.cap) + chunks.last(), start.cap) =~= capped(
            sent + chunks.last(),
            start.cap,
        ));
    }
}

/// The declared length is a hint and no more: with a length that is a count
/// and with none at all, the download begins, and the same chunks leave the
/// same bytes.
pub proof fn lemma_hint_changes_nothing(declared: Seq<char>, cap: u64, chunks: Seq<Seq<u8>>)
    requires
        length_of_text(declared) is Ok,
    ensures
        opened(Some(declared), cap) is Ok,
        opened(None, cap) is Ok,
        opened(Some(declared), cap)->Ok_0.fed_all(chunks).body == opened(None, cap)->Ok_0.fed_all(
            chunks,
        ).body,
        opened(None, cap)->Ok_0.fed_all(chunks).body == capped(concat(chunks), cap),
{
    let with = opened(Some(declared), cap)->Ok_0;
    let without = opened(None, cap)->Ok_0;
    lemma_keeps_the_beginning(with, chunks);
    lemma_keeps_the_beginning(without, chunks);
    assert(Seq::<u8>::empty() + concat(chunks) =~= concat(chunks));
}

} // verus!
