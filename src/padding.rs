use vstd::prelude::*;
use vstd::string::{StringExecFns, StrSliceExecFns, StringSliceAdditionalSpecFns};

verus! {

/// Where the padding goes relative to the text.
#[derive(Debug, PartialEq, Eq, Clone, Copy, Structural)]
pub enum PadSide {
    Left,
    Right,
}

/// How the width of the text is measured.
#[derive(Debug, PartialEq, Eq, Clone, Copy, Structural)]
pub enum Content {
    /// By its UTF-8 bytes.
    Bytes,
    /// By the UTF-8 widths of its characters, summed.
    Chars,
}

/// The number of bytes that `c` takes in UTF-8.
pub open spec fn utf8_width(c: char) -> nat {
    if (c as u32) < 0x80 {
        1
    } else if (c as u32) < 0x800 {
        2
    } else if (c as u32) < 0x10000 {
        3
    } else {
        4
    }
}

/// The UTF-8 widths of the characters of `s`, summed.
pub open spec fn chars_width(s: Seq<char>) -> nat
    decreases s.len(),
{
    if s.len() == 0 {
        0
    } else {
        chars_width(s.drop_last()) + utf8_width(s.last())
    }
}

/// The width of `s` as `content` measures it.
pub open spec fn measured(s: &str, content: Content) -> nat {
    match content {
        Content::Bytes => s.spec_bytes().len(),
        Content::Chars => chars_width(s@),
    }
}

/// `n` copies of `c`.
pub open spec fn repeated(c: char, n: nat) -> Seq<char> {
    Seq::new(n, |_i: int| c)
}

/// `s` padded with `c` on `side` by `length` less the width of `s`.
pub open spec fn padded(s: Seq<char>, width: nat, c: char, length: nat, side: PadSide) -> Seq<char> {
    let fill = repeated(c, (length - width) as nat);
    match side {
        PadSide::Left => fill + s,
        PadSide::Right => s + fill,
    }
}

/// Text that can be padded to a given width.
pub trait Padded {
    spec fn text(&self) -> Seq<char>;

    spec fn width(&self, content: Content) -> nat;

    /// The text with `pad_char` added on `side` until it is `length` wide.
    fn pad(&self, pad_char: char, length: usize, side: PadSide, content: Content) -> (r: String)
        requires
            self.width(content) <= length,
        ensures
            r@ == padded(self.text(), self.width(content), pad_char, length as nat, side),
    ;
}

/// Relies on `String::push`: appends one character.
#[verifier::external_body]
fn push_char(s: &mut String, c: char)
    ensures
        final(s)@ == old(s)@.push(c),
{
    s.push(c)
}

fn char_width(c: char) -> (r: usize)
    ensures
        r == utf8_width(c),
{
    if (c as u32) < 0x80 {
        1
    } else if (c as u32) < 0x800 {
        2
    } else if (c as u32) < 0x10000 {
        3
    } else {
        4
    }
}

fn width_of_chars(s: &str) -> (r: usize)
    requires
        chars_width(s@) <= usize::MAX,
    ensures
        r == chars_width(s@),
{
    let n = s.unicode_len();
    let mut sum: usize = 0;
    let mut i: usize = 0;
    while i < n
        invariant
            n == s@.len(),
            i <= n,
            chars_width(s@) <= usize::MAX,
            sum == chars_width(s@.subrange(0, i as int)),
        decreases n - i,
    {
        proof {
            let next = s@.subrange(0, i + 1);
            assert(next.drop_last() =~= s@.subrange(0, i as int));
            lemma_chars_width_prefix(s@, i + 1);
        }
        sum = sum + char_width(s.get_char(i));
        i = i + 1;
    }
    assert(s@.subrange(0, n as int) =~= s@);
    sum
}

proof fn lemma_chars_width_prefix(s: Seq<char>, k: int)
    requires
        0 <= k <= s.len(),
    ensures
        chars_width(s.subrange(0, k)) <= chars_width(s),
    decreases s.len(),
{
    if k < s.len() {
        assert(s.drop_last().subrange(0, k) =~= s.subrange(0, k));
        lemma_chars_width_prefix(s.drop_last(), k);
    } else {
        assert(s.subrange(0, k) =~= s);
    }
}

impl Padded for str {
    open spec fn text(&self) -> Seq<char> {
        self@
    }

    open spec fn width(&self, content: Content) -> nat {
        measured(self, content)
    }

    fn pad(&self, pad_char: char, length: usize, side: PadSide, content: Content) -> (r: String) {
        let mut padded_str = String::new();
        let pad_len = match content {
            Content::Bytes => length - self.len(),
            Content::Chars => length - width_of_chars(self),
        };
        if side == PadSide::Right {
            padded_str.append(self);
        }
        let ghost prefix = padded_str@;
        let mut i: usize = 0;
        while i < pad_len
            invariant
                i <= pad_len,
                padded_str@ == prefix + repeated(pad_char, i as nat),
            decreases pad_len - i,
        {
            push_char(&mut padded_str, pad_char);
            i = i + 1;
            assert(padded_str@ =~= prefix + repeated(pad_char, i as nat));
        }
        if side == PadSide::Left {
            padded_str.append(self);
        }
        proof {
            let fill = repeated(pad_char, pad_len as nat);
            if side == PadSide::Left {
                assert(padded_str@ =~= fill + self@);
            } else {
                assert(padded_str@ =~= self@ + fill);
            }
        }
        padded_str
    }
}

} // verus!
