//! Trimming helpers for line-based input: dropping one trailing newline
//! (with its carriage return) from an owned string, and a borrowed-slice
//! variant that cuts as many characters off the end as the text has
//! newline characters anywhere.

use vstd::prelude::*;

verus! {

/// `s` without one trailing `'\n'`, and without the `'\r'` before it if
/// both are there.  Text that does not end in `'\n'` is left alone.
pub open spec fn spec_trim_newline(s: Seq<char>) -> Seq<char> {
    if s.len() > 0 && s[s.len() - 1] == '\n' {
        let t = s.drop_last();
        if t.len() > 0 && t[t.len() - 1] == '\r' {
            t.drop_last()
        } else {
            t
        }
    } else {
        s
    }
}

/// How many characters of `s` are `'\n'` or `'\r'`, wherever they stand.
pub open spec fn spec_count_newlines(s: Seq<char>) -> nat
    decreases s.len(),
{
    if s.len() == 0 {
        0
    } else {
        (if s[0] == '\n' || s[0] == '\r' {
            1nat
        } else {
            0nat
        }) + spec_count_newlines(s.skip(1))
    }
}

/// Text that can shed one trailing newline in place.
pub trait Trimmable {
    /// The characters the value currently holds.
    spec fn text(&self) -> Seq<char>;

    /// Removes one trailing `'\n'`, and the `'\r'` before it if both are
    /// there.
    fn trim_newline(&mut self)
        ensures
            final(self).text() == spec_trim_newline(old(self).text()),
    ;
}

impl Trimmable for String {
    open spec fn text(&self) -> Seq<char> {
        self@
    }

    fn trim_newline(&mut self) {
        let n = self.as_str().unicode_len();
        if n > 0 && self.as_str().get_char(n - 1) == '\n' {
            let t = self.as_str().substring_char(0, n - 1).to_owned();
            proof {
                assert(t@ =~= self@.drop_last());
            }
            let m = n - 1;
            if m > 0 && t.as_str().get_char(m - 1) == '\r' {
                let t2 = t.as_str().substring_char(0, m - 1).to_owned();
                proof {
                    assert(t2@ =~= t@.drop_last());
                }
                *self = t2;
            } else {
                *self = t;
            }
        }
    }
}

/// The same trimming duty under a second name; some call sites bind the
/// method through this trait.
pub trait StringUtils {
    /// The characters the value currently holds.
    spec fn text(&self) -> Seq<char>;

    /// Removes one trailing `'\n'`, and the `'\r'` before it if both are
    /// there.
    fn trim_newline(&mut self)
        ensures
            final(self).text() == spec_trim_newline(old(self).text()),
    ;
}

impl StringUtils for String {
    open spec fn text(&self) -> Seq<char> {
        self@
    }

    fn trim_newline(&mut self) {
        Trimmable::trim_newline(self);
    }
}

/// In-place trimming that hands the value back for chaining.
pub trait StringTrimmable {
    /// The characters the value currently holds.
    spec fn text(&self) -> Seq<char>;

    /// Removes one trailing `'\n'`, and the `'\r'` before it if both are
    /// there.
    fn trim_newline(&mut self)
        ensures
            final(self).text() == spec_trim_newline(old(self).text()),
    ;
}

impl StringTrimmable for String {
    open spec fn text(&self) -> Seq<char> {
        self@
    }

    fn trim_newline(&mut self) {
        Trimmable::trim_newline(self);
    }
}

/// Borrowed text that yields a trimmed view of itself.  The end of the
/// slice moves left once for every newline character anywhere in the
/// text, which equals trimming trailing newlines only when no others
/// occur.
pub trait StrTrimmable {
    /// The characters left after trimming.
    spec fn trimmed(&self) -> Seq<char>;

    /// The text without its last characters, one for every `'\n'` or
    /// `'\r'` the whole text holds.
    fn trim_newline(&self) -> (r: &str)
        ensures
            r@ == self.trimmed(),
    ;
}

impl StrTrimmable for str {
    open spec fn trimmed(&self) -> Seq<char> {
        self@.subrange(0, self@.len() - spec_count_newlines(self@))
    }

    fn trim_newline(&self) -> (r: &str) {
        let n = self.unicode_len();
        let mut cnt: usize = 0;
        let mut i: usize = 0;
        proof {
            assert(self@.skip(0) =~= self@);
        }
        while i < n
            invariant
                n == self@.len(),
                0 <= i <= n,
                cnt <= i,
                cnt + spec_count_newlines(self@.skip(i as int)) == spec_count_newlines(self@),
            decreases n - i,
        {
            let c = self.get_char(i);
            proof {
                let tail = self@.skip(i as int);
                assert(tail[0] == self@[i as int]);
                assert(tail.skip(1) =~= self@.skip(i + 1));
            }
            if c == '\n' || c == '\r' {
                cnt = cnt + 1;
            }
            i = i + 1;
        }
        proof {
            assert(self@.skip(n as int) =~= Seq::<char>::empty());
        }
        self.substring_char(0, n - cnt)
    }
}

} // verus!
