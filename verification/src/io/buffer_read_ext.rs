//! Skipping and reading the pieces of a text: runs of bytes, fixed words,
//! quoted strings.

use crate::error::ErrorCode;
use crate::error::ErrorKind;
use crate::io::buffer_read::BufferRead;
use vstd::prelude::*;

verus! {

/// Whether `n` is the length of the longest start of `bytes` of which
/// every byte passes the test `f`.
pub open spec fn run_of<F: Fn(u8) -> bool>(f: F, bytes: Seq<u8>, n: int) -> bool {
    &&& 0 <= n <= bytes.len()
    &&& forall|i: int| 0 <= i < n ==> call_ensures(f, (#[trigger] bytes[i],), true)
    &&& n < bytes.len() ==> call_ensures(f, (bytes[n],), false)
}

/// The length of the longest common start of `a` and `b`, where bytes are
/// compared by `same`.
pub open spec fn common_prefix(a: Seq<u8>, b: Seq<u8>, same: spec_fn(u8, u8) -> bool) -> nat
    decreases a.len(),
{
    if a.len() == 0 || b.len() == 0 || !same(a[0], b[0]) {
        0
    } else {
        1 + common_prefix(a.skip(1), b.skip(1), same)
    }
}

/// The lower-case form of an ASCII letter, and any other byte itself.
pub open spec fn ascii_lower(b: u8) -> u8 {
    if 65 <= b <= 90 {
        (b + 32) as u8
    } else {
        b
    }
}

/// Whether two bytes are the same.
pub open spec fn same_byte() -> spec_fn(u8, u8) -> bool {
    |x: u8, y: u8| x == y
}

/// Whether two bytes are the same but for the case of ASCII letters.
pub open spec fn same_letter() -> spec_fn(u8, u8) -> bool {
    |x: u8, y: u8| ascii_lower(x) == ascii_lower(y)
}

/// Whether a byte is ASCII white space: a space, a tab, a line feed, a
/// form feed or a carriage return.
pub open spec fn is_white_space(b: u8) -> bool {
    b == 32 || b == 9 || b == 10 || b == 12 || b == 13
}

/// The number of bytes at the start of `bytes` that satisfy `p`.
pub open spec fn leading(bytes: Seq<u8>, p: spec_fn(u8) -> bool) -> nat
    decreases bytes.len(),
{
    if bytes.len() == 0 || !p(bytes[0]) {
        0
    } else {
        1 + leading(bytes.skip(1), p)
    }
}

/// Whether a byte is a space.
pub open spec fn is_space() -> spec_fn(u8) -> bool {
    |b: u8| b == 32
}

/// Whether a byte is ASCII white space.
pub open spec fn white_space() -> spec_fn(u8) -> bool {
    |b: u8| is_white_space(b)
}

/// What is left of `bytes` once spaces, the byte `b` and more spaces have
/// been skipped, `None` where `b` does not follow the first spaces.
pub open spec fn after_spaced_byte(bytes: Seq<u8>, b: u8) -> Option<Seq<u8>> {
    let rest = bytes.skip(leading(bytes, is_space()) as int);
    if rest.len() > 0 && rest[0] == b {
        let tail = rest.skip(1);
        Some(tail.skip(leading(tail, is_space()) as int))
    } else {
        None
    }
}

/// The bytes that an escape stands for: the byte after the backslash
/// decoded where it is one of `n t r 0 ' \ "`, else the backslash and the
/// byte.
pub open spec fn unescaped(c: u8) -> Seq<u8> {
    if c == 110 {
        seq![10u8]
    } else if c == 116 {
        seq![9u8]
    } else if c == 114 {
        seq![13u8]
    } else if c == 48 {
        seq![0u8]
    } else if c == 39 {
        seq![39u8]
    } else if c == 92 {
        seq![92u8]
    } else if c == 34 {
        seq![34u8]
    } else {
        seq![92u8, c]
    }
}

/// The text of a quoted string whose opening quote has been read: the
/// decoded bytes up to the closing quote `quota`, and the number of bytes
/// that were read, the closing quote among them. `None` where the bytes
/// end before the string does.
pub open spec fn quoted_body(bytes: Seq<u8>, quota: u8) -> Option<(Seq<u8>, nat)>
    decreases bytes.len(),
{
    if bytes.len() == 0 {
        None
    } else if bytes[0] == quota {
        Some((Seq::empty(), 1))
    } else if bytes[0] == 92 {
        if bytes.len() < 2 {
            None
        } else {
            match quoted_body(bytes.skip(2), quota) {
                Some((text, n)) => Some((unescaped(bytes[1]) + text, n + 2)),
                None => None,
            }
        }
    } else {
        match quoted_body(bytes.skip(1), quota) {
            Some((text, n)) => Some((seq![bytes[0]] + text, n + 1)),
            None => None,
        }
    }
}

/// The text of a quoted string: what [`quoted_body`] gives after the
/// opening quote `quota`, with the quote counted. `None` where the bytes do
/// not start with the quote.
pub open spec fn quoted_text(bytes: Seq<u8>, quota: u8) -> Option<(Seq<u8>, nat)> {
    if bytes.len() > 0 && bytes[0] == quota {
        match quoted_body(bytes.skip(1), quota) {
            Some((text, n)) => Some((text, n + 1)),
            None => None,
        }
    } else {
        None
    }
}

/// Whether a byte ends an escaped text: a tab or a line feed.
pub open spec fn ends_escaped() -> spec_fn(u8) -> bool {
    |b: u8| b != 9 && b != 10
}

/// The position of the first byte `delim` in `bytes`, counted from 1, or
/// the length of `bytes` where there is none.
pub open spec fn through(bytes: Seq<u8>, delim: u8) -> nat
    decreases bytes.len(),
{
    if bytes.len() == 0 {
        0
    } else if bytes[0] == delim {
        1
    } else {
        1 + through(bytes.skip(1), delim)
    }
}

/// An error for bytes that are not what the reader expects.
pub fn invalid_data(message: &str) -> (e: ErrorCode)
    ensures
        e.kind == ErrorKind::InvalidData,
        e.message@ == message@,
{
    ErrorCode::create(ErrorKind::InvalidData, message)
}

/// Reading the pieces of a text from a source of bytes.
pub trait BufferReadExt: BufferRead {
    /// Skips the bytes at the front that pass the test `f` and returns how
    /// many there were.
    fn ignores<F: Fn(u8) -> bool>(&mut self, f: F) -> (r: Result<usize, ErrorCode>)
        requires
            forall|b: u8| call_requires(f, (b,)),
        ensures
            r is Ok,
            run_of(f, old(self).remaining(), r->Ok_0 as int),
            final(self).remaining() == old(self).remaining().skip(r->Ok_0 as int),
    ;

    /// Skips the byte at the front where it passes the test `f`, and tells
    /// whether it did.
    fn ignore<F: Fn(u8) -> bool>(&mut self, f: F) -> (r: Result<bool, ErrorCode>)
        requires
            forall|b: u8| call_requires(f, (b,)),
        ensures
            r is Ok,
            old(self).remaining().len() == 0 ==> !r->Ok_0,
            old(self).remaining().len() > 0 ==> call_ensures(f, (old(self).remaining()[0],), r->Ok_0),
            final(self).remaining() == if r->Ok_0 {
                old(self).remaining().skip(1)
            } else {
                old(self).remaining()
            },
    ;

    /// Skips the byte at the front where it is `b`, and tells whether it
    /// was.
    fn ignore_byte(&mut self, b: u8) -> (r: Result<bool, ErrorCode>)
        ensures
            r is Ok,
            r->Ok_0 == (old(self).remaining().len() > 0 && old(self).remaining()[0] == b),
            final(self).remaining() == if r->Ok_0 {
                old(self).remaining().skip(1)
            } else {
                old(self).remaining()
            },
    ;

    /// Skips the bytes at the front as far as they are the bytes `bs`, and
    /// tells whether all of `bs` was there.
    fn ignore_bytes(&mut self, bs: &[u8]) -> (r: Result<bool, ErrorCode>)
        ensures
            r is Ok,
            r->Ok_0 == (common_prefix(old(self).remaining(), bs@, same_byte()) == bs@.len()),
            final(self).remaining() == old(self).remaining().skip(
                common_prefix(old(self).remaining(), bs@, same_byte()) as int,
            ),
    ;

    /// Skips the bytes at the front as far as they are the bytes `bs` but
    /// for the case of ASCII letters, and tells whether all of `bs` was
    /// there.
    fn ignore_insensitive_bytes(&mut self, bs: &[u8]) -> (r: Result<bool, ErrorCode>)
        ensures
            r is Ok,
            r->Ok_0 == (common_prefix(old(self).remaining(), bs@, same_letter()) == bs@.len()),
            final(self).remaining() == old(self).remaining().skip(
                common_prefix(old(self).remaining(), bs@, same_letter()) as int,
            ),
    ;

    /// Skips the white space at the front and tells whether there was any.
    fn ignore_white_spaces(&mut self) -> (r: Result<bool, ErrorCode>)
        ensures
            r is Ok,
            r->Ok_0 == (leading(old(self).remaining(), white_space()) > 0),
            final(self).remaining() == old(self).remaining().skip(
                leading(old(self).remaining(), white_space()) as int,
            ),
    ;

    /// Skips spaces, the byte `b` and more spaces, and tells whether `b`
    /// was there. Where it was not, only the first spaces are skipped.
    fn ignore_white_spaces_and_byte(&mut self, b: u8) -> (r: Result<bool, ErrorCode>)
        ensures
            r is Ok,
            r->Ok_0 == after_spaced_byte(old(self).remaining(), b) is Some,
            final(self).remaining() == match after_spaced_byte(old(self).remaining(), b) {
                Some(rest) => rest,
                None => old(self).remaining().skip(leading(old(self).remaining(), is_space()) as int),
            },
    ;

    /// Reads the bytes up to and with the first byte `delim`, or all bytes
    /// where there is none, adds them to `buf` and returns how many there
    /// were.
    fn until(&mut self, delim: u8, buf: &mut Vec<u8>) -> (r: Result<usize, ErrorCode>)
        ensures
            r is Ok,
            r->Ok_0 == through(old(self).remaining(), delim),
            final(buf)@ == old(buf)@ + old(self).remaining().take(r->Ok_0 as int),
            final(self).remaining() == old(self).remaining().skip(r->Ok_0 as int),
    ;

    /// Reads the bytes at the front that pass the test `f`, adds them to
    /// `buf` and returns how many there were.
    fn keep_read<F: Fn(u8) -> bool>(&mut self, buf: &mut Vec<u8>, f: F) -> (r: Result<usize, ErrorCode>)
        requires
            forall|b: u8| call_requires(f, (b,)),
        ensures
            r is Ok,
            run_of(f, old(self).remaining(), r->Ok_0 as int),
            final(buf)@ == old(buf)@ + old(self).remaining().take(r->Ok_0 as int),
            final(self).remaining() == old(self).remaining().skip(r->Ok_0 as int),
    ;

    /// Reads all bytes that are left, adds them to `buf` and returns how
    /// many there were.
    fn drain(&mut self, buf: &mut Vec<u8>) -> (r: Result<usize, ErrorCode>)
        ensures
            r is Ok,
            r->Ok_0 == old(self).remaining().len(),
            final(buf)@ == old(buf)@ + old(self).remaining(),
            final(self).remaining().len() == 0,
    {
        let ghost all = self.remaining();
        let mut bytes: usize = 0;
        proof {
            self.lemma_remaining_bounded();
        }
        assert(all.take(0) =~= Seq::<u8>::empty());
        assert(buf@ =~= old(buf)@ + all.take(0));
        assert(all.skip(0) =~= all);
        loop
            invariant
                bytes <= all.len(),
                all.len() <= usize::MAX,
                all == old(self).remaining(),
                self.remaining() == all.skip(bytes as int),
                buf@ == old(buf)@ + all.take(bytes as int),
            ensures
                bytes == all.len(),
                self.remaining().len() == 0,
                buf@ == old(buf)@ + all,
            decreases all.len() - bytes,
        {
            let size = self.fill_buf();
            if size == 0 {
                assert(all.take(bytes as int) =~= all);
                break;
            }
            let mut i: usize = 0;
            while i < size
                invariant
                    i <= size,
                    size == self.buffered(),
                    size <= self.remaining().len(),
                    bytes + size <= all.len(),
                    self.remaining() == all.skip(bytes as int),
                    buf@ == old(buf)@ + all.take(bytes + i),
                decreases size - i,
            {
                let b = self.peek(i);
                buf.push(b);
                assert(all.take(bytes + i + 1) =~= all.take(bytes + i).push(all[bytes + i]));
                assert(old(buf)@ + all.take(bytes + i + 1) =~= (old(buf)@ + all.take(bytes + i)).push(b));
                i += 1;
            }
            self.consume(size);
            assert(all.skip(bytes as int).skip(size as int) =~= all.skip(bytes + size));
            bytes += size;
        }
        Ok(bytes)
    }

    /// Reads a string between two quotes `quota`, in which a backslash
    /// escapes the byte after it, and adds its text to `buf`.
    ///
    /// Fails with an `InvalidData` error exactly where the bytes do not
    /// start with the quote or end before the string does.
    #[verifier::rlimit(40)]
    fn read_quoted_text(&mut self, buf: &mut Vec<u8>, quota: u8) -> (r: Result<(), ErrorCode>)
        ensures
            match quoted_text(old(self).remaining(), quota) {
                Some((text, n)) => {
                    &&& r is Ok
                    &&& final(buf)@ == old(buf)@ + text
                    &&& final(self).remaining() == old(self).remaining().skip(n as int)
                },
                None => r is Err && r->Err_0.kind == ErrorKind::InvalidData,
            },
    {
        let ghost all = self.remaining();
        let quoted = self.ignore_byte(quota)?;
        if !quoted {
            return Err(invalid_data("Expected to have char"));
        }
        let ghost body = all.skip(1);
        let ghost mut read: nat = 0;
        let ghost mut text: Seq<u8> = Seq::empty();
        assert(body.skip(0) =~= body);
        assert(buf@ =~= old(buf)@ + text);
        loop
            invariant
                all == old(self).remaining(),
                body == all.skip(1),
                all.len() > 0,
                all[0] == quota,
                read <= body.len(),
                self.remaining() == body.skip(read as int),
                buf@ == old(buf)@ + text,
                quoted_body(body, quota) == match quoted_body(body.skip(read as int), quota) {
                    Some((t, n)) => Some((text + t, n + read)),
                    None => None,
                },
            decreases body.len() - read,
        {
            let ghost rest = self.remaining();
            let ghost before = buf@;
            let plain = |b: u8| -> (ok: bool)
                ensures
                    ok == (b != quota && b != 92),
                { b != quota && b != 92 };
            let copied = self.keep_read(buf, plain)?;
            proof {
                lemma_plain_run(rest, quota, copied as nat);
                assert(rest.skip(copied as int) =~= body.skip(read + copied));
                assert(old(buf)@ + (text + rest.take(copied as int)) =~= before + rest.take(copied as int));
                let q = quoted_body(rest.skip(copied as int), quota);
                if q is Some {
                    assert(text + (rest.take(copied as int) + q->Some_0.0) =~= (text + rest.take(copied as int))
                        + q->Some_0.0);
                }
                text = text + rest.take(copied as int);
                read = read + copied as nat;
            }
            let ghost tail = self.remaining();
            if self.ignore_byte(quota)? {
                proof {
                    assert(tail.skip(1) =~= all.skip((read + 1 + 1) as int));
                    assert(text + Seq::<u8>::empty() =~= text);
                }
                return Ok(());
            } else if self.ignore_byte(92)? {
                let available = self.fill_buf();
                if available == 0 {
                    return Err(invalid_data("Expected to have terminated string literal after escaped char"));
                }
                let c = self.peek(0);
                self.ignore_byte(c)?;
                let ghost mid = buf@;
                if c == 110 {
                    buf.push(10);
                } else if c == 116 {
                    buf.push(9);
                } else if c == 114 {
                    buf.push(13);
                } else if c == 48 {
                    buf.push(0);
                } else if c == 39 {
                    buf.push(39);
                } else if c == 92 {
                    buf.push(92);
                } else if c == 34 {
                    buf.push(34);
                } else {
                    buf.push(92);
                    buf.push(c);
                }
                proof {
                    assert(buf@ =~= mid + unescaped(c));
                    assert(tail.skip(2) =~= body.skip((read + 2) as int));
                    assert(tail.skip(1).skip(1) =~= tail.skip(2));
                    assert(old(buf)@ + (text + unescaped(c)) =~= (old(buf)@ + text) + unescaped(c));
                    let next = quoted_body(tail.skip(2), quota);
                    if next is Some {
                        assert((text + unescaped(c)) + next->Some_0.0 =~= text + (unescaped(c) + next->Some_0.0));
                    }
                    text = text + unescaped(c);
                    read = read + 2;
                }
            } else {
                return Err(invalid_data("Expected to have terminated string literal after quota"));
            }
        }
    }

    /// Reads the bytes up to the first tab or line feed, or all bytes where
    /// there is none, and adds them to `buf`.
    fn read_escaped_string_text(&mut self, buf: &mut Vec<u8>) -> (r: Result<(), ErrorCode>)
        ensures
            r is Ok,
            final(buf)@ == old(buf)@ + old(self).remaining().take(
                leading(old(self).remaining(), ends_escaped()) as int,
            ),
            final(self).remaining() == old(self).remaining().skip(
                leading(old(self).remaining(), ends_escaped()) as int,
            ),
    {
        let ghost all = self.remaining();
        let ghost mut read: nat = 0;
        assert(all.skip(0) =~= all);
        assert(buf@ =~= old(buf)@ + all.take(0));
        loop
            invariant
                all == old(self).remaining(),
                read <= all.len(),
                self.remaining() == all.skip(read as int),
                buf@ == old(buf)@ + all.take(read as int),
                leading(all, ends_escaped()) == read + leading(all.skip(read as int), ends_escaped()),
            decreases all.len() - read,
        {
            let ghost rest = self.remaining();
            let ghost before = buf@;
            let plain = |b: u8| -> (ok: bool)
                ensures
                    ok == (b != 9 && b != 10 && b != 92),
                { b != 9 && b != 10 && b != 92 };
            let copied = self.keep_read(buf, plain)?;
            proof {
                lemma_escaped_run(rest, copied as nat);
                assert(rest.skip(copied as int) =~= all.skip(read + copied));
                assert(all.take(read + copied) =~= all.take(read as int) + rest.take(copied as int));
                assert(old(buf)@ + all.take(read + copied) =~= before + rest.take(copied as int));
                read = read + copied as nat;
            }
            let ghost tail = self.remaining();
            if self.ignore_byte(92)? {
                buf.push(92);
                proof {
                    assert(tail.skip(1) =~= all.skip((read + 1) as int));
                    assert(all.take((read + 1) as int) =~= all.take(read as int).push(92u8));
                    assert(old(buf)@ + all.take((read + 1) as int) =~= (old(buf)@ + all.take(read as int)).push(92u8));
                    read = read + 1;
                }
            } else {
                return Ok(());
            }
        }
    }

    /// Whether the source is at its end.
    fn eof(&mut self) -> (r: Result<bool, ErrorCode>)
        ensures
            r is Ok,
            r->Ok_0 == (old(self).remaining().len() == 0),
            final(self).remaining() == old(self).remaining(),
    {
        let n = self.fill_buf();
        Ok(n == 0)
    }

    /// Fails with an `InvalidData` error exactly where the source is not at
    /// its end.
    fn must_eof(&mut self) -> (r: Result<(), ErrorCode>)
        ensures
            old(self).remaining().len() == 0 ==> r is Ok,
            old(self).remaining().len() > 0 ==> r is Err && r->Err_0.kind == ErrorKind::InvalidData,
            final(self).remaining() == old(self).remaining(),
    {
        let n = self.fill_buf();
        if n != 0 {
            return Err(invalid_data("Must reach the buffer end"));
        }
        Ok(())
    }

    /// Skips the byte at the front where it passes the test `f`, and fails
    /// with an `InvalidData` error where it does not.
    fn must_ignore<F: Fn(u8) -> bool>(&mut self, f: F) -> (r: Result<(), ErrorCode>)
        requires
            forall|b: u8| call_requires(f, (b,)),
        ensures
            r is Err ==> r->Err_0.kind == ErrorKind::InvalidData && final(self).remaining() == old(
                self,
            ).remaining(),
            old(self).remaining().len() == 0 ==> r is Err,
            old(self).remaining().len() > 0 ==> call_ensures(f, (old(self).remaining()[0],), r is Ok),
            r is Ok ==> final(self).remaining() == old(self).remaining().skip(1),
    {
        if !self.ignore(f)? {
            return Err(invalid_data("Expected to ignore a byte"));
        }
        Ok(())
    }

    /// Skips the byte `b` at the front, and fails with an `InvalidData`
    /// error exactly where the byte at the front is another or there is
    /// none.
    fn must_ignore_byte(&mut self, b: u8) -> (r: Result<(), ErrorCode>)
        ensures
            r is Ok == (old(self).remaining().len() > 0 && old(self).remaining()[0] == b),
            r is Ok ==> final(self).remaining() == old(self).remaining().skip(1),
            r is Err ==> r->Err_0.kind == ErrorKind::InvalidData && final(self).remaining() == old(
                self,
            ).remaining(),
    {
        if !self.ignore_byte(b)? {
            return Err(invalid_data("Expected to have char"));
        }
        Ok(())
    }

    /// Skips spaces, the byte `b` and more spaces, and fails with an
    /// `InvalidData` error exactly where `b` does not follow the first
    /// spaces.
    fn must_ignore_white_spaces_and_byte(&mut self, b: u8) -> (r: Result<(), ErrorCode>)
        ensures
            r is Ok == after_spaced_byte(old(self).remaining(), b) is Some,
            r is Ok ==> final(self).remaining() == after_spaced_byte(old(self).remaining(), b)->Some_0,
            r is Err ==> r->Err_0.kind == ErrorKind::InvalidData,
    {
        if !self.ignore_white_spaces_and_byte(b)? {
            return Err(invalid_data("Expected to have char"));
        }
        Ok(())
    }

    /// Skips the bytes `bs` at the front, and fails with an `InvalidData`
    /// error exactly where the source does not start with them.
    fn must_ignore_bytes(&mut self, bs: &[u8]) -> (r: Result<(), ErrorCode>)
        ensures
            r is Ok == (common_prefix(old(self).remaining(), bs@, same_byte()) == bs@.len()),
            r is Ok ==> final(self).remaining() == old(self).remaining().skip(bs@.len() as int),
            r is Err ==> r->Err_0.kind == ErrorKind::InvalidData,
    {
        if !self.ignore_bytes(bs)? {
            return Err(invalid_data("Expected to have bytes"));
        }
        Ok(())
    }

    /// Skips the bytes `bs` at the front, whatever the case of ASCII
    /// letters, and fails with an `InvalidData` error exactly where the
    /// source does not start with them.
    fn must_ignore_insensitive_bytes(&mut self, bs: &[u8]) -> (r: Result<(), ErrorCode>)
        ensures
            r is Ok == (common_prefix(old(self).remaining(), bs@, same_letter()) == bs@.len()),
            r is Ok ==> final(self).remaining() == old(self).remaining().skip(bs@.len() as int),
            r is Err ==> r->Err_0.kind == ErrorKind::InvalidData,
    {
        if !self.ignore_insensitive_bytes(bs)? {
            return Err(invalid_data("Expected to have insensitive bytes"));
        }
        Ok(())
    }
}

/// After a run of bytes that are neither the quote nor a backslash, the
/// quoted string goes on with what follows the run.
pub proof fn lemma_plain_run(bytes: Seq<u8>, quota: u8, n: nat)
    requires
        n <= bytes.len(),
        forall|i: int| 0 <= i < n ==> bytes[i] != quota && bytes[i] != 92,
    ensures
        quoted_body(bytes, quota) == match quoted_body(bytes.skip(n as int), quota) {
            Some((t, k)) => Some((bytes.take(n as int) + t, k + n)),
            None => None,
        },
    decreases n,
{
    if n == 0 {
        assert(bytes.skip(0) =~= bytes);
        let q = quoted_body(bytes, quota);
        if q is Some {
            assert(bytes.take(0) + q->Some_0.0 =~= q->Some_0.0);
        }
    } else {
        let rest = bytes.skip(1);
        assert forall|i: int| 0 <= i < n - 1 implies rest[i] != quota && rest[i] != 92 by {
            assert(rest[i] == bytes[i + 1]);
        }
        lemma_plain_run(rest, quota, (n - 1) as nat);
        assert(rest.skip(n - 1) =~= bytes.skip(n as int));
        let q = quoted_body(bytes.skip(n as int), quota);
        if q is Some {
            assert(seq![bytes[0]] + (rest.take(n - 1) + q->Some_0.0) =~= bytes.take(n as int) + q->Some_0.0);
        }
    }
}

/// A run of bytes that are neither a tab, a line feed nor a backslash
/// belongs to the escaped text, and the text goes on with what follows the
/// run where that is a backslash.
pub proof fn lemma_escaped_run(bytes: Seq<u8>, n: nat)
    requires
        n <= bytes.len(),
        forall|i: int| 0 <= i < n ==> bytes[i] != 9 && bytes[i] != 10 && bytes[i] != 92,
        n < bytes.len() ==> bytes[n as int] == 9 || bytes[n as int] == 10 || bytes[n as int] == 92,
    ensures
        leading(bytes, ends_escaped()) == n + leading(bytes.skip(n as int), ends_escaped()),
        n < bytes.len() && bytes[n as int] == 92 ==> leading(bytes.skip(n as int), ends_escaped()) == 1 + leading(
            bytes.skip((n + 1) as int),
            ends_escaped(),
        ),
        n == bytes.len() || bytes[n as int] != 92 ==> leading(bytes.skip(n as int), ends_escaped()) == 0,
    decreases n,
{
    if n == 0 {
        assert(bytes.skip(0) =~= bytes);
        if bytes.len() > 0 {
            assert(bytes.skip(0).skip(1) =~= bytes.skip(1));
        }
    } else {
        let rest = bytes.skip(1);
        assert forall|i: int| 0 <= i < n - 1 implies rest[i] != 9 && rest[i] != 10 && rest[i] != 92 by {
            assert(rest[i] == bytes[i + 1]);
        }
        if n < bytes.len() {
            assert(rest[n - 1] == bytes[n as int]);
            assert(rest.skip(n - 1 + 1) =~= bytes.skip((n + 1) as int));
        }
        lemma_escaped_run(rest, (n - 1) as nat);
        assert(rest.skip(n - 1) =~= bytes.skip(n as int));
    }
}

/// A run of bytes that pass a test which says what `p` says is as long as
/// the start of the bytes that satisfies `p`.
pub proof fn lemma_run_is_leading<F: Fn(u8) -> bool>(f: F, p: spec_fn(u8) -> bool, bytes: Seq<u8>, n: int)
    requires
        run_of(f, bytes, n),
        forall|b: u8, r: bool| call_ensures(f, (b,), r) ==> r == p(b),
    ensures
        leading(bytes, p) == n,
    decreases n,
{
    if n > 0 {
        let rest = bytes.skip(1);
        assert(call_ensures(f, (bytes[0],), true));
        assert forall|i: int| 0 <= i < n - 1 implies call_ensures(f, (#[trigger] rest[i],), true) by {
            assert(rest[i] == bytes[i + 1]);
        }
        if n < bytes.len() {
            assert(rest[n - 1] == bytes[n]);
        }
        lemma_run_is_leading(f, p, rest, n - 1);
    } else if bytes.len() > 0 {
        assert(call_ensures(f, (bytes[0],), false));
    }
}

/// Two sequences that agree on their first `n` bytes and end or differ
/// after them have a common start of `n` bytes.
pub proof fn lemma_common_prefix(a: Seq<u8>, b: Seq<u8>, same: spec_fn(u8, u8) -> bool, n: nat)
    requires
        n <= a.len(),
        n <= b.len(),
        forall|i: int| 0 <= i < n ==> same(a[i], b[i]),
        n == a.len() || n == b.len() || !same(a[n as int], b[n as int]),
    ensures
        common_prefix(a, b, same) == n,
    decreases n,
{
    if n > 0 {
        let ra = a.skip(1);
        let rb = b.skip(1);
        assert(same(a[0], b[0]));
        assert forall|i: int| 0 <= i < n - 1 implies same(ra[i], rb[i]) by {
            assert(ra[i] == a[i + 1] && rb[i] == b[i + 1]);
            assert(same(a[i + 1], b[i + 1]));
        }
        lemma_common_prefix(ra, rb, same, (n - 1) as nat);
    }
}

/// The position of the first byte `delim`, counted from 1, where no byte
/// before position `n` is `delim`.
pub proof fn lemma_through(bytes: Seq<u8>, delim: u8, n: nat)
    requires
        n <= bytes.len(),
        forall|i: int| 0 <= i < n ==> bytes[i] != delim,
    ensures
        n < bytes.len() && bytes[n as int] == delim ==> through(bytes, delim) == n + 1,
        n == bytes.len() ==> through(bytes, delim) == n,
    decreases n,
{
    if n > 0 {
        let rest = bytes.skip(1);
        assert forall|i: int| 0 <= i < n - 1 implies rest[i] != delim by {
            assert(rest[i] == bytes[i + 1]);
        }
        if n < bytes.len() {
            assert(rest[n - 1] == bytes[n as int]);
        }
        lemma_through(rest, delim, (n - 1) as nat);
    }
}

fn lower(b: u8) -> (r: u8)
    ensures
        r == ascii_lower(b),
{
    if 65 <= b && b <= 90 {
        b + 32
    } else {
        b
    }
}

/// Skips the bytes at the front of `reader` as far as they are the bytes
/// `bs`, with the case of ASCII letters left aside where `insensitive` is
/// set.
fn skip_common<R: BufferRead>(reader: &mut R, bs: &[u8], insensitive: bool) -> (r: bool)
    ensures
        r == (common_prefix(old(reader).remaining(), bs@, if insensitive { same_letter() } else { same_byte() })
            == bs@.len()),
        final(reader).remaining() == old(reader).remaining().skip(
            common_prefix(old(reader).remaining(), bs@, if insensitive { same_letter() } else { same_byte() })
                as int,
        ),
{
    let ghost all = reader.remaining();
    let ghost same = if insensitive { same_letter() } else { same_byte() };
    let mut done: usize = 0;
    assert(all.skip(0) =~= all);
    while done < bs.len()
        invariant
            done <= bs.len(),
            done <= all.len(),
            all == old(reader).remaining(),
            same == (if insensitive { same_letter() } else { same_byte() }),
            reader.remaining() == all.skip(done as int),
            forall|i: int| 0 <= i < done ==> same(all[i], bs@[i]),
        decreases bs.len() - done,
    {
        let size = reader.fill_buf();
        if size == 0 {
            proof {
                lemma_common_prefix(all, bs@, same, done as nat);
            }
            return false;
        }
        let left = bs.len() - done;
        let min_size = if size < left { size } else { left };
        let mut k: usize = 0;
        while k < min_size
            invariant
                k <= min_size,
                min_size <= size,
                min_size <= bs.len() - done,
                done <= all.len(),
                size == reader.buffered(),
                size <= reader.remaining().len(),
                all == old(reader).remaining(),
                same == (if insensitive { same_letter() } else { same_byte() }),
                reader.remaining() == all.skip(done as int),
                forall|i: int| 0 <= i < done + k ==> same(all[i], bs@[i]),
            decreases min_size - k,
        {
            let x = reader.peek(k);
            let y = bs[done + k];
            let equal = if insensitive { lower(x) == lower(y) } else { x == y };
            if !equal {
                reader.consume(k);
                proof {
                    assert(all.skip(done as int).skip(k as int) =~= all.skip(done + k));
                    lemma_common_prefix(all, bs@, same, (done + k) as nat);
                }
                return false;
            }
            k += 1;
        }
        reader.consume(min_size);
        assert(all.skip(done as int).skip(min_size as int) =~= all.skip(done + min_size));
        done += min_size;
    }
    proof {
        lemma_common_prefix(all, bs@, same, done as nat);
    }
    true
}

impl<R: BufferRead> BufferReadExt for R {
    fn ignores<F: Fn(u8) -> bool>(&mut self, f: F) -> (r: Result<usize, ErrorCode>) {
        let ghost all = self.remaining();
        let mut bytes: usize = 0;
        proof {
            self.lemma_remaining_bounded();
        }
        assert(all.skip(0) =~= all);
        loop
            invariant
                bytes <= all.len(),
                all.len() <= usize::MAX,
                all == old(self).remaining(),
                self.remaining() == all.skip(bytes as int),
                forall|b: u8| call_requires(f, (b,)),
                forall|i: int| 0 <= i < bytes ==> call_ensures(f, (#[trigger] all[i],), true),
            decreases all.len() - bytes,
        {
            let size = self.fill_buf();
            if size == 0 {
                return Ok(bytes);
            }
            let mut index: usize = 0;
            while index < size
                invariant
                    index <= size,
                    size == self.buffered(),
                    size <= self.remaining().len(),
                    bytes + size <= all.len(),
                    all.len() <= usize::MAX,
                    all == old(self).remaining(),
                    self.remaining() == all.skip(bytes as int),
                    forall|b: u8| call_requires(f, (b,)),
                    forall|i: int| 0 <= i < bytes + index ==> call_ensures(f, (#[trigger] all[i],), true),
                decreases size - index,
            {
                let byt = self.peek(index);
                if !f(byt) {
                    self.consume(index);
                    assert(all.skip(bytes as int).skip(index as int) =~= all.skip(bytes + index));
                    return Ok(bytes + index);
                }
                index += 1;
            }
            self.consume(size);
            assert(all.skip(bytes as int).skip(size as int) =~= all.skip(bytes + size));
            bytes += size;
        }
    }

    fn ignore<F: Fn(u8) -> bool>(&mut self, f: F) -> (r: Result<bool, ErrorCode>) {
        let size = self.fill_buf();
        if size == 0 {
            Ok(false)
        } else if f(self.peek(0)) {
            self.consume(1);
            Ok(true)
        } else {
            Ok(false)
        }
    }

    fn ignore_byte(&mut self, b: u8) -> (r: Result<bool, ErrorCode>) {
        let is_b = |c: u8| -> (ok: bool)
            ensures
                ok == (c == b),
            { c == b };
        self.ignore(is_b)
    }

    fn ignore_bytes(&mut self, bs: &[u8]) -> (r: Result<bool, ErrorCode>) {
        Ok(skip_common(self, bs, false))
    }

    fn ignore_insensitive_bytes(&mut self, bs: &[u8]) -> (r: Result<bool, ErrorCode>) {
        Ok(skip_common(self, bs, true))
    }

    fn ignore_white_spaces(&mut self) -> (r: Result<bool, ErrorCode>) {
        let is_ws = |c: u8| -> (ok: bool)
            ensures
                ok == is_white_space(c),
            { c == 32 || c == 9 || c == 10 || c == 12 || c == 13 };
        let n = self.ignores(is_ws)?;
        proof {
            lemma_run_is_leading(is_ws, white_space(), old(self).remaining(), n as int);
        }
        Ok(n > 0)
    }

    fn ignore_white_spaces_and_byte(&mut self, b: u8) -> (r: Result<bool, ErrorCode>) {
        let space = |c: u8| -> (ok: bool)
            ensures
                ok == (c == 32),
            { c == 32 };
        let n = self.ignores(space)?;
        proof {
            lemma_run_is_leading(space, is_space(), old(self).remaining(), n as int);
        }
        let ghost rest = self.remaining();
        if self.ignore_byte(b)? {
            let space_again = |c: u8| -> (ok: bool)
                ensures
                    ok == (c == 32),
                { c == 32 };
            let ghost tail = self.remaining();
            let m = self.ignores(space_again)?;
            proof {
                lemma_run_is_leading(space_again, is_space(), tail, m as int);
            }
            return Ok(true);
        }
        Ok(false)
    }

    fn until(&mut self, delim: u8, buf: &mut Vec<u8>) -> (r: Result<usize, ErrorCode>) {
        let ghost all = self.remaining();
        let mut bytes: usize = 0;
        proof {
            self.lemma_remaining_bounded();
        }
        assert(all.skip(0) =~= all);
        assert(buf@ =~= old(buf)@ + all.take(0));
        loop
            invariant
                bytes <= all.len(),
                all.len() <= usize::MAX,
                all == old(self).remaining(),
                self.remaining() == all.skip(bytes as int),
                buf@ == old(buf)@ + all.take(bytes as int),
                forall|i: int| 0 <= i < bytes ==> all[i] != delim,
            decreases all.len() - bytes,
        {
            let size = self.fill_buf();
            if size == 0 {
                proof {
                    lemma_through(all, delim, bytes as nat);
                }
                return Ok(bytes);
            }
            let b = self.peek(0);
            buf.push(b);
            self.consume(1);
            proof {
                assert(all.skip(bytes as int).skip(1) =~= all.skip(bytes + 1));
                assert(all.take(bytes + 1) =~= all.take(bytes as int).push(b));
                assert(old(buf)@ + all.take(bytes + 1) =~= (old(buf)@ + all.take(bytes as int)).push(b));
            }
            if b == delim {
                proof {
                    lemma_through(all, delim, bytes as nat);
                }
                return Ok(bytes + 1);
            }
            bytes += 1;
        }
    }

    fn keep_read<F: Fn(u8) -> bool>(&mut self, buf: &mut Vec<u8>, f: F) -> (r: Result<usize, ErrorCode>) {
        let ghost all = self.remaining();
        let mut bytes: usize = 0;
        proof {
            self.lemma_remaining_bounded();
        }
        assert(all.skip(0) =~= all);
        assert(buf@ =~= old(buf)@ + all.take(0));
        loop
            invariant
                bytes <= all.len(),
                all.len() <= usize::MAX,
                all == old(self).remaining(),
                self.remaining() == all.skip(bytes as int),
                buf@ == old(buf)@ + all.take(bytes as int),
                forall|b: u8| call_requires(f, (b,)),
                forall|i: int| 0 <= i < bytes ==> call_ensures(f, (#[trigger] all[i],), true),
            ensures
                bytes < all.len() ==> call_ensures(f, (all[bytes as int],), false),
            decreases all.len() - bytes,
        {
            let size = self.fill_buf();
            if size == 0 {
                break;
            }
            let b = self.peek(0);
            if !f(b) {
                break;
            }
            buf.push(b);
            self.consume(1);
            proof {
                assert(all.skip(bytes as int).skip(1) =~= all.skip(bytes + 1));
                assert(all.take(bytes + 1) =~= all.take(bytes as int).push(b));
                assert(old(buf)@ + all.take(bytes + 1) =~= (old(buf)@ + all.take(bytes as int)).push(b));
            }
            bytes += 1;
        }
        Ok(bytes)
    }
}

} // verus!
