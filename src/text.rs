//! Preparation of user- or system-provided text for display: truncation or
//! line breaking, and escaping of markup characters.
use vstd::prelude::*;
use vstd::string::{StrSliceExecFns, StringExecFns};

verus! {

/// Whether `c` has the Unicode White_Space property.
pub open spec fn is_white_space(c: char) -> bool {
    let u = c as u32;
    (9 <= u <= 13) || u == 32 || u == 0x85 || u == 0xA0 || u == 0x1680 || (0x2000 <= u <= 0x200A) || u == 0x2028
        || u == 0x2029 || u == 0x202F || u == 0x205F || u == 0x3000
}

pub fn white_space(c: char) -> (r: bool)
    ensures
        r == is_white_space(c),
{
    let u = c as u32;
    (9 <= u && u <= 13) || u == 32 || u == 0x85 || u == 0xA0 || u == 0x1680 || (0x2000 <= u && u <= 0x200A) || u
        == 0x2028 || u == 0x2029 || u == 0x202F || u == 0x205F || u == 0x3000
}

/// The words of the first `n` characters of `s` that have ended, as ranges of
/// positions, and the start of the word still open at `n`.
pub open spec fn scan_words(s: Seq<char>, n: int) -> (Seq<(int, int)>, Option<int>)
    decreases n,
{
    if n <= 0 {
        (Seq::empty(), None)
    } else {
        let (ws, open) = scan_words(s, n - 1);
        if is_white_space(s[n - 1]) {
            match open {
                Some(st) => (ws.push((st, n - 1)), None),
                None => (ws, None),
            }
        } else {
            match open {
                Some(st) => (ws, Some(st)),
                None => (ws, Some(n - 1)),
            }
        }
    }
}

/// The words of `s`: its maximal runs of characters that are not white space.
pub open spec fn word_ranges(s: Seq<char>) -> Seq<(int, int)> {
    let (ws, open) = scan_words(s, s.len() as int);
    match open {
        Some(st) => ws.push((st, s.len() as int)),
        None => ws,
    }
}

/// The text and the line number after one more word is laid out.
pub open spec fn lay_word(out: Seq<char>, lines: int, w: Seq<char>, max_length: int, indent: bool) -> (Seq<char>, int) {
    let size = w.len() as int;
    let count = out.len() as int;
    let room = max_length * lines - count;
    if size > max_length {
        let cut = if room < 0 {
            0
        } else if room > size {
            size
        } else {
            room
        };
        (out + w.take(cut) + "\n... "@, lines + 1)
    } else if size + count > max_length * lines {
        (out + (if indent { "\n\t\t"@ } else { "\n"@ }) + w + " "@, lines + 1)
    } else {
        (out + w + " "@, lines)
    }
}

/// The text and the line number after the words of `ranges` are laid out.
pub open spec fn lay_words(s: Seq<char>, ranges: Seq<(int, int)>, max_length: int, indent: bool) -> (Seq<char>, int)
    decreases ranges.len(),
{
    if ranges.len() == 0 {
        (Seq::empty(), 1)
    } else {
        let (out, lines) = lay_words(s, ranges.drop_last(), max_length, indent);
        let r = ranges.last();
        lay_word(out, lines, s.subrange(r.0, r.1), max_length, indent)
    }
}

/// The markup that stands for `c`.
pub open spec fn escape_char(c: char) -> Seq<char> {
    if c == '&' {
        "&amp;"@
    } else if c == '<' {
        "&lt;"@
    } else if c == '>' {
        "&gt;"@
    } else if c == '\0' {
        Seq::empty()
    } else {
        seq![c]
    }
}

pub open spec fn escape(s: Seq<char>) -> Seq<char>
    decreases s.len(),
{
    if s.len() == 0 {
        s
    } else {
        escape(s.drop_last()) + escape_char(s.last())
    }
}

/// What `clean_text` returns.
pub open spec fn cleaned(s: Seq<char>, max_length: int, newline: bool, indent: bool, clean: bool) -> Seq<char> {
    let t = if !newline {
        s.take(if s.len() <= max_length { s.len() as int } else { max_length })
    } else {
        lay_words(s, word_ranges(s), max_length, indent).0
    };
    if clean {
        escape(t)
    } else {
        t
    }
}

proof fn lemma_scan_bound(s: Seq<char>, n: int)
    requires
        0 <= n <= s.len(),
    ensures
        2 * scan_words(s, n).0.len() + (if scan_words(s, n).1 is Some { 1int } else { 0 }) <= n,
        forall|k: int| 0 <= k < scan_words(s, n).0.len() ==> 0 <= (#[trigger] scan_words(s, n).0[k]).0 < scan_words(s, n).0[k].1 <= n,
        scan_words(s, n).1 matches Some(st) ==> 0 <= st < n,
    decreases n,
{
    if n > 0 {
        lemma_scan_bound(s, n - 1);
    }
}

/// Splits `raw_text` into its words, as ranges of character positions.
fn split_words(raw_text: &str) -> (r: Vec<(usize, usize)>)
    ensures
        r@.len() == word_ranges(raw_text@).len(),
        forall|k: int| 0 <= k < r@.len() ==> (#[trigger] r@[k]).0 as int == word_ranges(raw_text@)[k].0 && r@[k].1 as int == word_ranges(raw_text@)[k].1,
        forall|k: int| 0 <= k < r@.len() ==> (#[trigger] r@[k]).0 < r@[k].1 <= raw_text@.len(),
        2 * r@.len() <= raw_text@.len() + 1,
{
    let ghost s = raw_text@;
    let n = raw_text.unicode_len();
    let mut r: Vec<(usize, usize)> = Vec::new();
    let mut open: Option<usize> = None;
    let mut i: usize = 0;
    while i < n
        invariant
            0 <= i <= n,
            n == s.len(),
            s == raw_text@,
            r@.len() == scan_words(s, i as int).0.len(),
            forall|k: int| 0 <= k < r@.len() ==> (#[trigger] r@[k]).0 as int == scan_words(s, i as int).0[k].0 && r@[k].1 as int == scan_words(s, i as int).0[k].1,
            match open {
                Some(st) => scan_words(s, i as int).1 == Some(st as int),
                None => scan_words(s, i as int).1 is None,
            },
        decreases n - i,
    {
        proof {
            lemma_scan_bound(s, i as int);
        }
        let c = raw_text.get_char(i);
        if white_space(c) {
            if let Some(st) = open {
                r.push((st, i));
                open = None;
            }
        } else if open.is_none() {
            open = Some(i);
        }
        i = i + 1;
    }
    proof {
        lemma_scan_bound(s, n as int);
    }
    if let Some(st) = open {
        r.push((st, n));
    }
    r
}

/// Escapes the markup characters of `text` and drops its null characters.
fn escape_text(text: &str) -> (r: String)
    ensures
        r@ == escape(text@),
{
    let n = text.unicode_len();
    let mut out = String::new();
    let mut i: usize = 0;
    while i < n
        invariant
            0 <= i <= n,
            n == text@.len(),
            out@ == escape(text@.take(i as int)),
        decreases n - i,
    {
        let c = text.get_char(i);
        assert(text@.take(i + 1).drop_last() =~= text@.take(i as int));
        if c == '&' {
            out.append("&amp;");
        } else if c == '<' {
            out.append("&lt;");
        } else if c == '>' {
            out.append("&gt;");
        } else if c != '\0' {
            let one = text.substring_char(i, i + 1);
            assert(one@ =~= seq![c]);
            out.append(one);
        }
        i = i + 1;
    }
    assert(text@.take(n as int) =~= text@);
    out
}

/// Prepares text for display. Without `newline` the text is cut at
/// `max_length` characters. With it, the words are laid out on lines of
/// `max_length` characters, a word too long for a line is cut and continued
/// on the next line after "... ", and a line break is followed by two tabs
/// where `indent` is set. Where `clean` is set, `&`, `<` and `>` become
/// markup entities and null characters are dropped.
pub fn clean_text(raw_text: &str, max_length: usize, newline: bool, indent: bool, clean: bool) -> (r: String)
    ensures
        r@ == cleaned(raw_text@, max_length as int, newline, indent, clean),
{
    let ghost s = raw_text@;
    let n = raw_text.unicode_len();
    let mut text = String::new();
    if !newline {
        let keep = if n <= max_length {
            n
        } else {
            max_length
        };
        text.append(raw_text.substring_char(0, keep));
        assert(s.subrange(0, keep as int) =~= s.take(keep as int));
    } else {
        let words = split_words(raw_text);
        let ghost ranges = word_ranges(s);
        let mut lines: usize = 1;
        let mut k: usize = 0;
        while k < words.len()
            invariant
                0 <= k <= words@.len(),
                words@.len() == ranges.len(),
                2 * words@.len() <= s.len() + 1,
                n == s.len(),
                s == raw_text@,
                ranges == word_ranges(s),
                forall|j: int| 0 <= j < words@.len() ==> (#[trigger] words@[j]).0 as int == ranges[j].0 && words@[j].1 as int == ranges[j].1,
                forall|j: int| 0 <= j < words@.len() ==> (#[trigger] words@[j]).0 < words@[j].1 <= s.len(),
                1 <= lines <= k + 1,
                (text@, lines as int) == lay_words(s, ranges.take(k as int), max_length as int, indent),
            decreases words@.len() - k,
        {
            let (st, en) = words[k];
            let word = raw_text.substring_char(st, en);
            let size = en - st;
            let count = text.as_str().unicode_len();
            proof {
                let a = max_length as int;
                let b = lines as int;
                let m = usize::MAX as int;
                assert(m <= 0xFFFF_FFFF_FFFF_FFFFint);
                assert(a * b <= m * m) by (nonlinear_arith)
                    requires
                        0 <= a <= m,
                        0 <= b <= m,
                ;
                assert(m * m <= 0xFFFF_FFFF_FFFF_FFFFint * 0xFFFF_FFFF_FFFF_FFFFint) by (nonlinear_arith)
                    requires
                        0 <= m <= 0xFFFF_FFFF_FFFF_FFFFint,
                ;
            }
            let limit: u128 = (max_length as u128) * (lines as u128);
            assert(ranges.take(k + 1).drop_last() =~= ranges.take(k as int));
            assert(ranges.take(k + 1).last() == ranges[k as int]);
            if size > max_length {
                let cut: usize = if limit <= count as u128 {
                    0
                } else if limit - (count as u128) > size as u128 {
                    size
                } else {
                    (limit - (count as u128)) as usize
                };
                let part = word.substring_char(0, cut);
                assert(part@ =~= word@.take(cut as int));
                text.append(part);
                text.append("\n... ");
                lines = lines + 1;
            } else if (size as u128) + (count as u128) > limit {
                if indent {
                    text.append("\n\t\t");
                } else {
                    text.append("\n");
                }
                text.append(word);
                text.append(" ");
                lines = lines + 1;
            } else {
                text.append(word);
                text.append(" ");
            }
            k = k + 1;
        }
        assert(ranges.take(k as int) =~= ranges);
    }
    if !clean {
        return text;
    }
    escape_text(text.as_str())
}

} // verus!
