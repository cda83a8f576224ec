//! Names of daily log files: `<prefix>-YYYYMMDD[-<n>].<ext>` under a base
//! directory, with a new name when the date changes or a name is taken.
use vstd::prelude::*;
use vstd::string::*;
use crate::text::{dec, push_char, push_decimal};

verus! {

/// A calendar date.
#[derive(Clone, Copy, PartialEq, Eq, Structural, Debug)]
pub struct Date {
    pub year: u32,
    pub month: u32,
    pub day: u32,
}

/// `n` in decimal, padded with leading zeros to `width` digits.
pub open spec fn padded(n: nat, width: nat) -> Seq<char> {
    let d = dec(n);
    if d.len() >= width {
        d
    } else {
        Seq::new((width - d.len()) as nat, |i: int| '0') + d
    }
}

/// The date as `YYYYMMDD`.
pub open spec fn date_text(d: Date) -> Seq<char> {
    padded(d.year as nat, 4) + padded(d.month as nat, 2) + padded(d.day as nat, 2)
}

/// `name` under directory `base`.
pub open spec fn joined(base: Seq<char>, name: Seq<char>) -> Seq<char> {
    if base.len() == 0 {
        name
    } else if base.last() == '/' {
        base + name
    } else {
        base + seq!['/'] + name
    }
}

/// The file name for date `d` after `counter` names were made for it: the
/// first has no suffix, the next ones `-2`, `-3`, and so on.
pub open spec fn file_name(prefix: Seq<char>, ext: Seq<char>, d: Date, counter: nat) -> Seq<char> {
    prefix + seq!['-'] + date_text(d) + (if counter == 0 {
        Seq::empty()
    } else {
        seq!['-'] + dec(counter + 1)
    }) + seq!['.'] + ext
}

/// Makes the paths of successive log files.
pub struct FilePathBuilder {
    base_path: String,
    prefix: String,
    ext: String,
    last_date: Date,
    conflict_counter: u64,
}

fn push_padded_decimal(s: &mut String, n: u32, width: usize)
    ensures
        final(s)@ == old(s)@ + padded(n as nat, width as nat),
{
    let digits = crate::text::decimal(n as u64);
    let len = digits.as_str().unicode_len();
    let mut i: usize = len;
    let ghost base = s@;
    while i < width
        invariant
            len <= i <= width || (width < len && i == len),
            s@ == base + Seq::new((i - len) as nat, |k: int| '0'),
        decreases width - i,
    {
        push_char(s, '0');
        i = i + 1;
        assert(s@ =~= base + Seq::new((i - len) as nat, |k: int| '0'));
    }
    s.append(digits.as_str());
    assert(s@ =~= base + padded(n as nat, width as nat));
}

fn push_file_name(s: &mut String, prefix: &str, ext: &str, d: Date, counter: u64)
    requires
        counter < u64::MAX,
    ensures
        final(s)@ == old(s)@ + file_name(prefix@, ext@, d, counter as nat),
{
    s.append(prefix);
    push_char(s, '-');
    let ghost at_date = s@;
    push_padded_decimal(s, d.year, 4);
    push_padded_decimal(s, d.month, 2);
    push_padded_decimal(s, d.day, 2);
    assert(s@ =~= at_date + date_text(d));
    let ghost at_suffix = s@;
    if counter != 0 {
        push_char(s, '-');
        push_decimal(s, counter + 1);
    }
    let ghost suffix: Seq<char> = if counter == 0 {
        Seq::empty()
    } else {
        seq!['-'] + dec((counter + 1) as nat)
    };
    assert(s@ =~= at_suffix + suffix);
    push_char(s, '.');
    s.append(ext);
    assert(s@ =~= old(s)@ + file_name(prefix@, ext@, d, counter as nat));
}

impl FilePathBuilder {
    pub closed spec fn spec_base(&self) -> Seq<char> {
        self.base_path@
    }

    pub closed spec fn spec_prefix(&self) -> Seq<char> {
        self.prefix@
    }

    pub closed spec fn spec_ext(&self) -> Seq<char> {
        self.ext@
    }

    /// The date of the current file.
    pub closed spec fn spec_date(&self) -> Date {
        self.last_date
    }

    /// How many names were made for the current date.
    pub closed spec fn spec_counter(&self) -> nat {
        self.conflict_counter as nat
    }

    /// A builder for files `<prefix>-YYYYMMDD[-<n>].<ext>` under `base_path`,
    /// starting on date `today`.
    pub fn new(base_path: &str, prefix: &str, ext: &str, today: Date) -> (r: Self)
        ensures
            r.spec_base() == base_path@,
            r.spec_prefix() == prefix@,
            r.spec_ext() == ext@,
            r.spec_date() == today,
            r.spec_counter() == 0,
    {
        FilePathBuilder {
            base_path: base_path.to_owned(),
            prefix: prefix.to_owned(),
            ext: ext.to_owned(),
            last_date: today,
            conflict_counter: 0,
        }
    }

    /// The next path for the current date; each call gives a new one.
    pub fn make_path(&mut self) -> (r: String)
        requires
            old(self).spec_counter() < u64::MAX - 1,
        ensures
            r@ == joined(
                old(self).spec_base(),
                file_name(
                    old(self).spec_prefix(),
                    old(self).spec_ext(),
                    old(self).spec_date(),
                    old(self).spec_counter(),
                ),
            ),
            final(self).spec_counter() == old(self).spec_counter() + 1,
            final(self).spec_base() == old(self).spec_base(),
            final(self).spec_prefix() == old(self).spec_prefix(),
            final(self).spec_ext() == old(self).spec_ext(),
            final(self).spec_date() == old(self).spec_date(),
    {
        let mut s = self.base_path.clone();
        let n = self.base_path.as_str().unicode_len();
        if n > 0 {
            let last = self.base_path.as_str().get_char(n - 1);
            if last != '/' {
                push_char(&mut s, '/');
            }
        }
        let ghost dir = s@;
        push_file_name(&mut s, self.prefix.as_str(), self.ext.as_str(), self.last_date, self.conflict_counter);
        self.conflict_counter = self.conflict_counter + 1;
        proof {
            let name = file_name(
                old(self).prefix@,
                old(self).ext@,
                old(self).last_date,
                old(self).conflict_counter as nat,
            );
            assert(s@ == dir + name);
            assert(dir + name =~= joined(old(self).base_path@, name));
        }
        s
    }

    /// Moves to date `today` when it differs from the current date, and
    /// says whether it did; names for a new date start without a suffix.
    pub fn rotate_if_needed(&mut self, today: Date) -> (r: bool)
        ensures
            r == (today != old(self).spec_date()),
            final(self).spec_date() == today,
            final(self).spec_counter() == if r {
                0
            } else {
                old(self).spec_counter()
            },
            final(self).spec_base() == old(self).spec_base(),
            final(self).spec_prefix() == old(self).spec_prefix(),
            final(self).spec_ext() == old(self).spec_ext(),
    {
        if self.last_date.day == today.day && self.last_date.month == today.month
            && self.last_date.year == today.year {
            return false;
        }
        self.last_date = today;
        self.conflict_counter = 0;
        true
    }
}

} // verus!
