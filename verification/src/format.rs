//! Column layout rules of the rendered view: fixed-width padding and
//! truncation, centering, one formatted line per entry, and the color rules
//! derived from an entry's level and tag.

use vstd::prelude::*;
use vstd::string::{StrSliceExecFns, StringExecFns};
use vstd::arithmetic::div_mod::{lemma_add_mod_noop, lemma_small_mod, lemma_mod_twice};
use crate::text::{join_sp, str_eq, views_of, join_tokens};

verus! {

/// `n` spaces.
pub open spec fn spaces(n: nat) -> Seq<char> {
    Seq::new(n, |i: int| ' ')
}

/// `s` cut to `w` characters, or padded on the right with spaces up to `w`:
/// a left-aligned fixed-width column.
pub open spec fn pad_spec(s: Seq<char>, w: nat) -> Seq<char> {
    if s.len() > w {
        s.subrange(0, w as int)
    } else {
        s + spaces((w - s.len()) as nat)
    }
}

/// `s` cut to `w` characters, or centered in `w` with the spare space split
/// evenly and the odd space on the right.
pub open spec fn pad_center_spec(s: Seq<char>, w: nat) -> Seq<char> {
    if s.len() >= w {
        s.subrange(0, w as int)
    } else {
        let total = (w - s.len()) as nat;
        spaces(total / 2) + s + spaces((total - total / 2) as nat)
    }
}

/// Appends `k` spaces to `r`.
fn push_spaces(r: &mut String, k: usize)
    ensures
        final(r)@ == old(r)@ + spaces(k as nat),
{
    let ghost r0 = r@;
    let mut i: usize = 0;
    proof {
        assert(r@ =~= r0 + spaces(0));
    }
    while i < k
        invariant
            i <= k,
            r@ == r0 + spaces(i as nat),
        decreases k - i,
    {
        r.append(" ");
        proof {
            reveal_strlit(" ");
            assert(r@ =~= r0 + spaces((i + 1) as nat));
        }
        i = i + 1;
    }
}

/// Left-aligns `text` in a column `width` characters wide, truncating when
/// it is longer.
pub fn pad(text: &str, width: usize) -> (r: String)
    ensures
        r@ == pad_spec(text@, width as nat),
{
    let n = text.unicode_len();
    if n > width {
        text.substring_char(0, width).to_owned()
    } else {
        let mut r = text.to_owned();
        push_spaces(&mut r, width - n);
        r
    }
}

/// Cuts `text` to `width` characters or right-pads it with spaces: the same
/// column rule as `pad`.
pub fn truncate(text: &str, width: usize) -> (r: String)
    ensures
        r@ == pad_spec(text@, width as nat),
{
    pad(text, width)
}

/// Centers `text` in a column `width` characters wide, truncating when it
/// is longer.
pub fn pad_center(text: &str, width: usize) -> (r: String)
    ensures
        r@ == pad_center_spec(text@, width as nat),
{
    let n = text.unicode_len();
    if n >= width {
        text.substring_char(0, width).to_owned()
    } else {
        let total = width - n;
        let left = total / 2;
        let mut r = String::new();
        push_spaces(&mut r, left);
        r.append(text);
        push_spaces(&mut r, total - left);
        proof {
            assert(r@ =~= pad_center_spec(text@, width as nat));
        }
        r
    }
}

/// One rendered line: `date time [pid-tid] tag package level message`, with
/// the date, time, pid, tid and tag columns fixed-width, the package column
/// fixed-width, and the message the remaining tokens joined with spaces.
/// Fewer than seven tokens render as nothing.
pub open spec fn format_line_spec(parts: Seq<Seq<char>>, package: Seq<char>) -> Seq<char> {
    if parts.len() < 7 {
        Seq::empty()
    } else {
        pad_spec(parts[0], 5) + " "@ + pad_spec(parts[1], 8) + " ["@ + pad_spec(parts[2], 5)
            + "-"@ + pad_spec(parts[3], 5) + "] "@ + pad_spec(parts[5], 15) + " "@ + pad_spec(
            package,
            15,
        ) + " "@ + parts[4] + " "@ + join_sp(parts.subrange(7, parts.len() as int).insert(0, parts[6]))
    }
}

/// Lays out one line's tokens and its resolved package as fixed columns.
/// The level and message come out unstyled; the caller colors them.
pub fn format_line(parts: &Vec<String>, package: &str) -> (r: String)
    ensures
        r@ == format_line_spec(views_of(parts@), package@),
{
    if parts.len() < 7 {
        return String::new();
    }
    let mut r = pad(parts[0].as_str(), 5);
    r.append(" ");
    let col = pad(parts[1].as_str(), 8);
    r.append(col.as_str());
    r.append(" [");
    let col = pad(parts[2].as_str(), 5);
    r.append(col.as_str());
    r.append("-");
    let col = pad(parts[3].as_str(), 5);
    r.append(col.as_str());
    r.append("] ");
    let col = pad(parts[5].as_str(), 15);
    r.append(col.as_str());
    r.append(" ");
    let col = pad(package, 15);
    r.append(col.as_str());
    r.append(" ");
    r.append(parts[4].as_str());
    r.append(" ");
    let msg = join_tokens(parts, 6);
    r.append(msg.as_str());
    proof {
        let vs = views_of(parts@);
        assert(vs.subrange(6, vs.len() as int) =~= vs.subrange(7, vs.len() as int).insert(
            0,
            vs[6],
        ));
        assert(r@ =~= format_line_spec(vs, package@));
    }
    r
}

/// The display color assigned to a severity level.
pub enum LevelColor {
    Red,
    Yellow,
    Green,
    Cyan,
    White,
}

/// The color each severity level renders in: errors red, warnings yellow,
/// information green, debug cyan, anything else white.
pub open spec fn level_color_spec(level: Seq<char>) -> LevelColor {
    if level == "E"@ {
        LevelColor::Red
    } else if level == "W"@ {
        LevelColor::Yellow
    } else if level == "I"@ {
        LevelColor::Green
    } else if level == "D"@ {
        LevelColor::Cyan
    } else {
        LevelColor::White
    }
}

/// Maps a severity level to its display color.
pub fn level_color(level: &str) -> (c: LevelColor)
    ensures
        c == level_color_spec(level@),
{
    if str_eq(level, "E") {
        LevelColor::Red
    } else if str_eq(level, "W") {
        LevelColor::Yellow
    } else if str_eq(level, "I") {
        LevelColor::Green
    } else if str_eq(level, "D") {
        LevelColor::Cyan
    } else {
        LevelColor::White
    }
}

/// The sum of a text's character codes: the seed a tag's display color is
/// derived from.
pub open spec fn char_sum(s: Seq<char>) -> nat
    decreases s.len(),
{
    if s.len() == 0 {
        0
    } else {
        char_sum(s.drop_last()) + s.last() as u32 as nat
    }
}

/// Derives a tag's color seed: the sum of its character codes, wrapped to
/// 32 bits.
pub fn tag_color_code(tag: &str) -> (r: u32)
    ensures
        r == char_sum(tag@) % 0x1_0000_0000,
{
    let n = tag.unicode_len();
    let mut acc: u32 = 0;
    let mut i: usize = 0;
    proof {
        assert(tag@.subrange(0, 0) =~= Seq::<char>::empty());
    }
    while i < n
        invariant
            i <= n,
            n == tag@.len(),
            acc == char_sum(tag@.subrange(0, i as int)) % 0x1_0000_0000,
        decreases n - i,
    {
        let c = tag.get_char(i);
        let code = c as u32;
        proof {
            let pre = tag@.subrange(0, i + 1);
            assert(pre.drop_last() =~= tag@.subrange(0, i as int));
            let s0 = char_sum(tag@.subrange(0, i as int)) as int;
            let m: int = 0x1_0000_0000;
            lemma_add_mod_noop(s0, code as int, m);
            lemma_small_mod(code as nat, m as nat);
            lemma_mod_twice(s0, m);
            assert((acc + code) % m == char_sum(pre) as int % m);
        }
        acc = acc.wrapping_add(code);
        i = i + 1;
    }
    proof {
        assert(tag@.subrange(0, n as int) =~= tag@);
    }
    acc
}

} // verus!
