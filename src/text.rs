use vstd::prelude::*;
use vstd::string::StrSliceExecFns;
use vstd::string::StringExecFns;

verus! {

/// The Unicode `White_Space` characters, which `char::is_whitespace` accepts.
pub open spec fn is_space_char(c: char) -> bool {
    ||| ('\u{9}' <= c && c <= '\u{d}')
    ||| c == ' '
    ||| c == '\u{85}'
    ||| c == '\u{a0}'
    ||| c == '\u{1680}'
    ||| ('\u{2000}' <= c && c <= '\u{200a}')
    ||| c == '\u{2028}'
    ||| c == '\u{2029}'
    ||| c == '\u{202f}'
    ||| c == '\u{205f}'
    ||| c == '\u{3000}'
}

/// A text is blank when nothing is left of it after trimming whitespace.
pub open spec fn is_blank_text(s: Seq<char>) -> bool {
    forall|i: int| 0 <= i < s.len() ==> is_space_char(#[trigger] s[i])
}

pub open spec fn strings_view(v: Seq<String>) -> Seq<Seq<char>> {
    v.map_values(|s: String| s@)
}

/// The paragraphs of `v` that are not blank, in their order.
pub open spec fn kept_paragraphs(v: Seq<Seq<char>>) -> Seq<Seq<char>>
    decreases v.len(),
{
    if v.len() == 0 {
        Seq::empty()
    } else {
        let rest = kept_paragraphs(v.drop_last());
        if is_blank_text(v.last()) {
            rest
        } else {
            rest.push(v.last())
        }
    }
}

/// Each line followed by a line break.
pub open spec fn lines_text(lines: Seq<Seq<char>>) -> Seq<char>
    decreases lines.len(),
{
    if lines.len() == 0 {
        Seq::empty()
    } else {
        lines_text(lines.drop_last()) + lines.last() + seq!['\n']
    }
}

/// One chapter block of the output: the title line, then one line per paragraph.
pub open spec fn chapter_text(title: Seq<char>, paragraphs: Seq<Seq<char>>) -> Seq<char> {
    lines_text(seq![title] + paragraphs)
}

pub fn is_space(c: char) -> (r: bool)
    ensures
        r == is_space_char(c),
{
    ('\u{9}' <= c && c <= '\u{d}') || c == ' ' || c == '\u{85}' || c == '\u{a0}' || c
        == '\u{1680}' || ('\u{2000}' <= c && c <= '\u{200a}') || c == '\u{2028}' || c
        == '\u{2029}' || c == '\u{202f}' || c == '\u{205f}' || c == '\u{3000}'
}

/// Whether `s` is empty once leading and trailing whitespace is trimmed.
pub fn is_blank(s: &str) -> (r: bool)
    ensures
        r == is_blank_text(s@),
{
    let n = s.unicode_len();
    let mut i: usize = 0;
    while i < n
        invariant
            n == s@.len(),
            i <= n,
            forall|k: int| 0 <= k < i ==> is_space_char(#[trigger] s@[k]),
        decreases n - i,
    {
        if !is_space(s.get_char(i)) {
            return false;
        }
        i = i + 1;
    }
    true
}

/// Drops the paragraphs that are blank, keeping the others in document order.
pub fn keep_paragraphs(texts: &Vec<String>) -> (r: Vec<String>)
    ensures
        strings_view(r@) == kept_paragraphs(strings_view(texts@)),
{
    let mut out: Vec<String> = Vec::new();
    let mut i: usize = 0;
    while i < texts.len()
        invariant
            i <= texts.len(),
            strings_view(out@) == kept_paragraphs(strings_view(texts@.take(i as int))),
        decreases texts.len() - i,
    {
        let ghost before = texts@.take(i as int);
        let ghost after = texts@.take(i as int + 1);
        proof {
            assert(strings_view(after).drop_last() =~= strings_view(before));
            assert(strings_view(after).last() == texts@[i as int]@);
        }
        if !is_blank(texts[i].as_str()) {
            let ghost prev = out@;
            out.push(texts[i].clone());
            proof {
                assert(strings_view(out@) =~= strings_view(prev).push(texts@[i as int]@));
            }
        }
        i = i + 1;
    }
    proof {
        assert(texts@.take(texts.len() as int) =~= texts@);
    }
    out
}

/// Lays out one chapter for the output: its title line, then one line for
/// each paragraph, each line ended by a line break.
pub fn render_chapter(title: &String, paragraphs: &Vec<String>) -> (r: String)
    ensures
        r@ == chapter_text(title@, strings_view(paragraphs@)),
{
    let mut out = title.clone();
    proof {
        reveal_strlit("\n");
    }
    out.append("\n");
    proof {
        let first = seq![title@];
        assert(first.drop_last() =~= Seq::<Seq<char>>::empty());
        assert(lines_text(first.drop_last()) == Seq::<char>::empty());
        assert(Seq::<char>::empty() + title@ =~= title@);
        assert(lines_text(first) == title@ + seq!['\n']);
        assert(first + strings_view(paragraphs@.take(0)) =~= first);
    }
    let mut i: usize = 0;
    while i < paragraphs.len()
        invariant
            i <= paragraphs.len(),
            out@ == lines_text(seq![title@] + strings_view(paragraphs@.take(i as int))),
        decreases paragraphs.len() - i,
    {
        proof {
            reveal_strlit("\n");
            let next = seq![title@] + strings_view(paragraphs@.take(i as int + 1));
            assert(next.drop_last() =~= seq![title@] + strings_view(paragraphs@.take(i as int)));
            assert(next.last() == paragraphs@[i as int]@);
        }
        out.append(paragraphs[i].as_str());
        out.append("\n");
        i = i + 1;
    }
    proof {
        assert(paragraphs@.take(paragraphs.len() as int) =~= paragraphs@);
    }
    out
}

} // verus!
