//! Finding the metadata block at the head of an article.
//!
//! The block is fenced by two lines that hold `---` and nothing but white
//! space around it. The lines between the two fences make up the block;
//! what stands above the opening fence is passed over.

use vstd::prelude::*;
use crate::text::{chars_of, spec_trim, string_of, trim_range};

verus! {

/// The number of characters before the first line feed of a text, or the
/// length of the text where it has none.
pub open spec fn spec_line_end(text: Seq<char>) -> nat
    decreases text.len(),
{
    if text.len() == 0 || text[0] == '\n' {
        0
    } else {
        1 + spec_line_end(text.drop_first())
    }
}

/// A line without the carriage return that may end it.
pub open spec fn spec_strip_cr(line: Seq<char>) -> Seq<char> {
    if line.len() > 0 && line.last() == '\r' {
        line.drop_last()
    } else {
        line
    }
}

/// The first line of a text, without its line ending.
pub open spec fn spec_first_line(text: Seq<char>) -> Seq<char> {
    spec_strip_cr(text.take(spec_line_end(text) as int))
}

/// What follows the first line of a text and its line feed.
pub open spec fn spec_rest_lines(text: Seq<char>) -> Seq<char> {
    if spec_line_end(text) < text.len() {
        text.skip(spec_line_end(text) as int + 1)
    } else {
        Seq::empty()
    }
}

/// Whether a line is a fence: `---`, with nothing but white space around.
pub open spec fn spec_is_fence(line: Seq<char>) -> bool {
    spec_trim(line) == seq!['-', '-', '-']
}

/// The metadata block of what is left of an article, given whether the
/// opening fence has been passed and the block gathered so far. A line
/// counts only once the opening fence has been passed.
pub open spec fn spec_frontmatter_from(text: Seq<char>, opened: bool, block: Seq<char>) -> Option<
    Seq<char>,
>
    decreases text.len(),
{
    if text.len() == 0 {
        None
    } else {
        let line = spec_first_line(text);
        let rest = spec_rest_lines(text);
        if spec_is_fence(line) {
            if opened {
                Some(block)
            } else {
                spec_frontmatter_from(rest, true, block)
            }
        } else if opened {
            spec_frontmatter_from(rest, opened, block + line + seq!['\n'])
        } else {
            spec_frontmatter_from(rest, opened, block)
        }
    }
}

/// The metadata block of an article: the lines between its first fence and
/// its second, each followed by a line feed. `None` where the article has
/// fewer than two fences.
pub open spec fn spec_frontmatter(text: Seq<char>) -> Option<Seq<char>> {
    spec_frontmatter_from(text, false, Seq::empty())
}

/// The first line ends at `at` if no line feed stands before `at` and one
/// stands at `at` or the text ends there.
pub proof fn lemma_line_end_is(text: Seq<char>, at: nat)
    requires
        at <= text.len(),
        forall|i: int| 0 <= i < at ==> #[trigger] text[i] != '\n',
        at < text.len() ==> text[at as int] == '\n',
    ensures
        spec_line_end(text) == at,
    decreases text.len(),
{
    if at > 0 {
        let rest = text.drop_first();
        assert forall|i: int| 0 <= i < at - 1 implies #[trigger] rest[i] != '\n' by {
            assert(rest[i] == text[i + 1]);
        }
        lemma_line_end_is(rest, (at - 1) as nat);
    }
}

/// The metadata block of an article, where it has one.
pub fn extract_frontmatter(source: &str) -> (block: Option<String>)
    ensures
        block is Some <==> spec_frontmatter(source@) is Some,
        block matches Some(text) ==> spec_frontmatter(source@) == Some(text@),
{
    let chars = chars_of(source);
    let len = chars.len();
    let mut gathered: Vec<char> = Vec::new();
    let mut opened = false;
    let mut pos: usize = 0;
    assert(chars@.skip(0) =~= chars@);
    while pos < len
        invariant
            pos <= len == chars@.len(),
            chars@ == source@,
            spec_frontmatter(source@) == spec_frontmatter_from(
                chars@.skip(pos as int),
                opened,
                gathered@,
            ),
        decreases len - pos,
    {
        let ghost text = chars@.skip(pos as int);
        let ghost was_opened = opened;
        let ghost before = gathered@;
        let mut end: usize = pos;
        while end < len && chars[end] != '\n'
            invariant
                pos <= end <= len == chars@.len(),
                forall|i: int| pos <= i < end ==> #[trigger] chars@[i] != '\n',
            decreases len - end,
        {
            end += 1;
        }
        let line_end: usize = if end > pos && chars[end - 1] == '\r' {
            (end - 1) as usize
        } else {
            end
        };
        proof {
            assert forall|i: int| 0 <= i < end - pos implies #[trigger] text[i] != '\n' by {
                assert(text[i] == chars@[pos + i]);
            }
            lemma_line_end_is(text, (end - pos) as nat);
            assert(text.take(end - pos) =~= chars@.subrange(pos as int, end as int));
            assert(spec_first_line(text) =~= chars@.subrange(pos as int, line_end as int));
        }
        let (start, stop) = trim_range(chars.as_slice(), pos, line_end);
        let fence = stop - start == 3 && chars[start] == '-' && chars[start + 1] == '-'
            && chars[start + 2] == '-';
        proof {
            let trimmed = chars@.subrange(start as int, stop as int);
            if fence {
                assert(trimmed =~= seq!['-', '-', '-']);
            } else if trimmed.len() == 3 {
                assert(trimmed[0] == chars@[start as int]);
                assert(trimmed[1] == chars@[start + 1]);
                assert(trimmed[2] == chars@[start + 2]);
                assert(seq!['-', '-', '-'][0] == '-');
            }
            assert(fence == spec_is_fence(spec_first_line(text)));
        }
        if fence {
            if opened {
                return Some(string_of(gathered.as_slice()));
            }
            opened = true;
        } else if opened {
            let mut i: usize = pos;
            assert(chars@.subrange(pos as int, pos as int) =~= Seq::empty());
            while i < line_end
                invariant
                    pos <= i <= line_end <= chars@.len(),
                    gathered@ == before + chars@.subrange(pos as int, i as int),
                decreases line_end - i,
            {
                gathered.push(chars[i]);
                assert(chars@.subrange(pos as int, i + 1) =~= chars@.subrange(
                    pos as int,
                    i as int,
                ).push(chars@[i as int]));
                i += 1;
            }
            gathered.push('\n');
        }
        let next: usize = if end < len {
            end + 1
        } else {
            len
        };
        proof {
            assert(spec_rest_lines(text) =~= chars@.skip(next as int));
            if !fence && opened {
                assert(gathered@ =~= before + spec_first_line(text) + seq!['\n']);
            }
            assert(text.len() > 0);
            assert(spec_frontmatter_from(text, was_opened, before) == spec_frontmatter_from(
                chars@.skip(next as int),
                opened,
                gathered@,
            ));
        }
        pos = next;
    }
    None
}

} // verus!
