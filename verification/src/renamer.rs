//! Editing the name of an item: a bounded text buffer that takes typed
//! characters and backspaces, kept to whole characters.  The cursor's
//! blink state belongs to the display and is kept there.

use vstd::prelude::*;
use crate::text::{push_char, string_from};

verus! {

/// Size of the rename buffer in bytes, the terminating NUL included.
pub const RENAME_BUF_SIZE: usize = 512;

/// Bytes that a character takes in UTF-8.
pub open spec fn char_width(c: char) -> nat {
    if (c as u32) < 0x80 {
        1
    } else if (c as u32) < 0x800 {
        2
    } else if (c as u32) < 0x10000 {
        3
    } else {
        4
    }
}

/// Bytes that a text takes in UTF-8.
pub open spec fn text_width(s: Seq<char>) -> nat
    decreases s.len(),
{
    if s.len() == 0 {
        0
    } else {
        text_width(s.drop_last()) + char_width(s.last())
    }
}

/// The longest run of whole characters at the start of `s` that fits in
/// `limit` bytes.
pub open spec fn fitting_prefix(s: Seq<char>, limit: nat) -> Seq<char>
    decreases s.len(),
{
    if s.len() == 0 || char_width(s[0]) > limit {
        Seq::empty()
    } else {
        seq![s[0]] + fitting_prefix(s.drop_first(), (limit - char_width(s[0])) as nat)
    }
}

fn char_width_exec(c: char) -> (w: usize)
    ensures
        w == char_width(c),
{
    let v = c as u32;
    if v < 0x80 {
        1
    } else if v < 0x800 {
        2
    } else if v < 0x10000 {
        3
    } else {
        4
    }
}

proof fn lemma_text_width_push(s: Seq<char>, c: char)
    ensures
        text_width(s.push(c)) == text_width(s) + char_width(c),
{
    assert(s.push(c).drop_last() =~= s);
}

proof fn lemma_text_width_prepend(c: char, s: Seq<char>)
    ensures
        text_width(seq![c] + s) == char_width(c) + text_width(s),
    decreases s.len(),
{
    if s.len() > 0 {
        lemma_text_width_prepend(c, s.drop_last());
        assert((seq![c] + s).drop_last() =~= seq![c] + s.drop_last());
        assert((seq![c] + s).last() == s.last());
    } else {
        assert(seq![c] + s =~= seq![c]);
        assert(seq![c].drop_last() =~= Seq::<char>::empty());
        assert(seq![c].last() == c);
        assert(text_width(seq![c]) == text_width(Seq::<char>::empty()) + char_width(c));
    }
}

/// The name being typed, its width in bytes, and whether renaming is
/// under way.
pub struct ItemRenamer {
    name: String,
    width: usize,
    pub renaming: bool,
}

impl ItemRenamer {
    pub closed spec fn wf(&self) -> bool {
        self.width == text_width(self.name@) && self.width < RENAME_BUF_SIZE
    }

    /// The name typed so far.
    pub closed spec fn spec_name(&self) -> Seq<char> {
        self.name@
    }

    /// Whether renaming is under way.
    pub closed spec fn spec_renaming(&self) -> bool {
        self.renaming
    }

    /// Starts renaming from `old_name`, keeping as many of its whole
    /// characters as fit in the buffer.
    pub fn new(old_name: Option<&str>) -> (r: ItemRenamer)
        ensures
            r.wf(),
            r.spec_renaming(),
            r.spec_name() == fitting_prefix(
                match old_name {
                    Some(n) => n@,
                    None => Seq::empty(),
                },
                (RENAME_BUF_SIZE - 1) as nat,
            ),
    {
        let old: &str = match old_name {
            Some(n) => n,
            None => "",
        };
        proof {
            reveal_strlit("");
        }
        let n = old.unicode_len();
        let mut name = String::new();
        let mut width: usize = 0;
        let mut i: usize = 0;
        let ghost whole = old@;
        assert(old@.skip(0) =~= old@);
        while i < n && width + char_width_exec(old.get_char(i)) <= RENAME_BUF_SIZE - 1
            invariant
                i <= n,
                n == old@.len(),
                whole == old@,
                width == text_width(name@),
                width <= RENAME_BUF_SIZE - 1,
                fitting_prefix(whole, (RENAME_BUF_SIZE - 1) as nat) == name@ + fitting_prefix(
                    whole.skip(i as int),
                    (RENAME_BUF_SIZE - 1 - width) as nat,
                ),
            decreases n - i,
        {
            let c = old.get_char(i);
            let w = char_width_exec(c);
            let ghost rest = whole.skip(i as int);
            assert(rest[0] == c);
            assert(rest.drop_first() =~= whole.skip(i + 1));
            proof {
                lemma_text_width_push(name@, c);
                assert(name@.push(c) + fitting_prefix(whole.skip(i + 1), (RENAME_BUF_SIZE - 1 - width - w) as nat)
                    =~= name@ + (seq![c] + fitting_prefix(whole.skip(i + 1), (RENAME_BUF_SIZE - 1 - width - w) as nat)));
            }
            push_char(&mut name, c);
            width = width + w;
            i = i + 1;
        }
        proof {
            let rest = whole.skip(i as int);
            if i == n {
                assert(rest =~= Seq::<char>::empty());
            } else {
                assert(rest[0] == whole[i as int]);
            }
            assert(fitting_prefix(rest, (RENAME_BUF_SIZE - 1 - width) as nat) =~= Seq::<char>::empty());
            assert(name@ + Seq::<char>::empty() =~= name@);
        }
        ItemRenamer { name, width, renaming: true }
    }

    /// The name typed so far.
    pub fn current_name(&self) -> (r: &str)
        ensures
            r@ == self.spec_name(),
    {
        self.name.as_str()
    }

    /// Types `c`, when it still fits in the buffer.
    pub fn append(&mut self, c: char)
        requires
            old(self).wf(),
        ensures
            final(self).wf(),
            final(self).spec_renaming() == old(self).spec_renaming(),
            final(self).spec_name() == (if text_width(old(self).spec_name()) + char_width(c) < RENAME_BUF_SIZE {
                old(self).spec_name().push(c)
            } else {
                old(self).spec_name()
            }),
    {
        let w = char_width_exec(c);
        if self.width + w < RENAME_BUF_SIZE {
            proof { lemma_text_width_push(self.name@, c); }
            push_char(&mut self.name, c);
            self.width = self.width + w;
        }
    }

    /// Removes the last character, if any.
    pub fn backspace(&mut self)
        requires
            old(self).wf(),
        ensures
            final(self).wf(),
            final(self).spec_renaming() == old(self).spec_renaming(),
            final(self).spec_name() == (if old(self).spec_name().len() == 0 {
                old(self).spec_name()
            } else {
                old(self).spec_name().drop_last()
            }),
    {
        let n = self.name.unicode_len();
        if n == 0 {
            return;
        }
        let last = self.name.as_str().get_char(n - 1);
        let w = char_width_exec(last);
        let shorter = string_from(self.name.as_str().substring_char(0, n - 1));
        proof {
            assert(shorter@ =~= self.name@.drop_last());
            assert(self.name@.drop_last().push(last) =~= self.name@);
            lemma_text_width_push(self.name@.drop_last(), last);
        }
        self.name = shorter;
        self.width = self.width - w;
    }

    /// Ends renaming; returns the name when it is accepted.
    pub fn finish(&mut self, accept: bool) -> (r: Option<String>)
        ensures
            !final(self).spec_renaming(),
            final(self).spec_name() == old(self).spec_name(),
            accept ==> (r matches Some(n) && n@ == old(self).spec_name()),
            !accept ==> r is None,
    {
        self.renaming = false;
        if accept {
            Some(string_from(self.name.as_str()))
        } else {
            None
        }
    }
}

/// Law: the name kept at the start of a rename is a prefix of the old
/// name and fits in the buffer.
pub proof fn law_fitting_prefix(s: Seq<char>, limit: nat)
    ensures
        fitting_prefix(s, limit).len() <= s.len(),
        fitting_prefix(s, limit) == s.take(fitting_prefix(s, limit).len() as int),
        text_width(fitting_prefix(s, limit)) <= limit,
    decreases s.len(),
{
    if !(s.len() == 0 || char_width(s[0]) > limit) {
        let rest = fitting_prefix(s.drop_first(), (limit - char_width(s[0])) as nat);
        law_fitting_prefix(s.drop_first(), (limit - char_width(s[0])) as nat);
        lemma_text_width_prepend(s[0], rest);
        assert(seq![s[0]] + rest =~= s.take((rest.len() + 1) as int));
    } else {
        assert(s.take(0) =~= Seq::<char>::empty());
    }
}

} // verus!
