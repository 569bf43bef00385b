//! Locating fenced code blocks in the preview lines.

use vstd::prelude::*;

use crate::text::{char_vec, has_prefix, trim_str, trimmed};

verus! {

/// A fenced code block: the lines from `start` up to (not including) `end`,
/// and the language named after the opening fence.
#[derive(Clone, Debug)]
pub struct CodeBlockInfo {
    pub start: usize,
    pub end: usize,
    pub language: String,
}

impl View for CodeBlockInfo {
    type V = (usize, usize, Seq<char>);

    open spec fn view(&self) -> (usize, usize, Seq<char>) {
        (self.start, self.end, self.language@)
    }
}

/// `s` without its leading backticks.
pub open spec fn strip_backticks(s: Seq<char>) -> Seq<char>
    decreases s.len(),
{
    if s.len() > 0 && s[0] == '`' {
        strip_backticks(s.drop_first())
    } else {
        s
    }
}

/// The progress of a scan for fences: the blocks closed so far, and the
/// block still open, if any.
pub struct FenceScan {
    pub blocks: Seq<(usize, usize, Seq<char>)>,
    pub open: bool,
    pub start: usize,
    pub lang: Seq<char>,
}

/// A line starting with three backticks opens a block when none is open
/// (the block starts on the next line) and closes the open one otherwise.
pub open spec fn fence_step(st: FenceScan, idx: usize, line: Seq<char>) -> FenceScan {
    if "```"@.is_prefix_of(line) {
        if st.open {
            FenceScan {
                blocks: st.blocks.push((st.start, idx, st.lang)),
                open: false,
                start: st.start,
                lang: Seq::empty(),
            }
        } else {
            FenceScan {
                blocks: st.blocks,
                open: true,
                start: (idx + 1) as usize,
                lang: trimmed(strip_backticks(line)),
            }
        }
    } else {
        st
    }
}

/// The scan after the given lines.
pub open spec fn fence_scan(lines: Seq<String>) -> FenceScan
    decreases lines.len(),
{
    if lines.len() == 0 {
        FenceScan { blocks: Seq::empty(), open: false, start: 0, lang: Seq::empty() }
    } else {
        fence_step(
            fence_scan(lines.drop_last()),
            (lines.len() - 1) as usize,
            lines.last()@,
        )
    }
}

fn strip_leading_backticks(s: &str) -> (r: String)
    ensures
        r@ == strip_backticks(s@),
{
    let cs = char_vec(s);
    let mut i: usize = 0;
    assert(cs@.skip(0) =~= cs@);
    while i < cs.len() && cs[i] == '`'
        invariant
            cs@ == s@,
            i <= cs@.len(),
            strip_backticks(s@) == strip_backticks(cs@.skip(i as int)),
        decreases cs.len() - i,
    {
        assert(cs@.skip(i as int).drop_first() =~= cs@.skip(i as int + 1));
        i = i + 1;
    }
    assert(cs@.skip(i as int) =~= s@.subrange(i as int, s@.len() as int));
    String::from_str(s.substring_char(i, cs.len()))
}

/// Finds the closed fenced code blocks among the lines, in order; an
/// unclosed block at the end is not reported.
pub fn parse_code_blocks(lines: &[String]) -> (r: Vec<CodeBlockInfo>)
    requires
        lines@.len() < usize::MAX,
    ensures
        r@.map_values(|b: CodeBlockInfo| b@) == fence_scan(lines@).blocks,
{
    let mut result: Vec<CodeBlockInfo> = Vec::new();
    let mut in_code_block = false;
    let mut current_lang = String::new();
    let mut block_start: usize = 0;
    let mut idx: usize = 0;
    assert(lines@.take(0) =~= Seq::<String>::empty());
    assert(result@.map_values(|b: CodeBlockInfo| b@) =~= Seq::empty());
    while idx < lines.len()
        invariant
            idx <= lines@.len(),
            lines@.len() < usize::MAX,
            fence_scan(lines@.take(idx as int)) == (FenceScan {
                blocks: result@.map_values(|b: CodeBlockInfo| b@),
                open: in_code_block,
                start: block_start,
                lang: current_lang@,
            }),
        decreases lines@.len() - idx,
    {
        assert(lines@.take(idx as int + 1).drop_last() =~= lines@.take(idx as int));
        let line = &lines[idx];
        if has_prefix(line.as_str(), "```") {
            if in_code_block {
                let ghost before = result@;
                result.push(CodeBlockInfo { start: block_start, end: idx, language: current_lang });
                assert(result@.map_values(|b: CodeBlockInfo| b@) =~= before.map_values(
                    |b: CodeBlockInfo| b@,
                ).push((block_start, idx, current_lang@)));
                in_code_block = false;
                current_lang = String::new();
            } else {
                in_code_block = true;
                block_start = idx + 1;
                let stripped = strip_leading_backticks(line.as_str());
                current_lang = String::from_str(trim_str(stripped.as_str()));
            }
        }
        idx = idx + 1;
    }
    assert(lines@.take(lines@.len() as int) =~= lines@);
    result
}

} // verus!
