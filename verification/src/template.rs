//! G-code instruction templates: text in which each `{expression}` is
//! replaced by the value of the expression.
//!
//! The expressions are evaluated outside this crate (they compute on
//! floating-point values); here the text is cut into parts and the values are
//! put back in place.
use crate::error::SlicerErrors;
use vstd::prelude::*;
use vstd::string::*;

verus! {

/// The pieces of `s` between the occurrences of `c`, as `str::split` gives
/// them: one more piece than there are occurrences, some possibly empty.
pub open spec fn split_on(s: Seq<char>, c: char) -> Seq<Seq<char>>
    decreases s.len(),
{
    if s.len() == 0 {
        seq![Seq::empty()]
    } else {
        let pre = split_on(s.drop_last(), c);
        if s.last() == c {
            pre.push(Seq::empty())
        } else {
            pre.update(pre.len() - 1, pre.last().push(s.last()))
        }
    }
}

/// `split_on` gives at least one piece.
pub proof fn lemma_split_on_len(s: Seq<char>, c: char)
    ensures
        split_on(s, c).len() >= 1,
    decreases s.len(),
{
    if s.len() > 0 {
        lemma_split_on_len(s.drop_last(), c);
    }
}

fn split_ranges(s: &str, c: char) -> (r: Vec<(usize, usize)>)
    ensures
        r@.len() == split_on(s@, c).len(),
        forall|i: int|
            0 <= i < r@.len() ==> (#[trigger] r@[i]).0 <= r@[i].1 <= s@.len() && s@.subrange(
                r@[i].0 as int,
                r@[i].1 as int,
            ) == split_on(s@, c)[i],
{
    let n = s.unicode_len();
    let mut done: Vec<(usize, usize)> = Vec::new();
    let mut start: usize = 0;
    let mut i: usize = 0;
    assert(s@.take(0) =~= Seq::<char>::empty());
    assert(Seq::new(done@.len(), |k: int| s@.subrange(done@[k].0 as int, done@[k].1 as int)).push(
        s@.subrange(0, 0),
    ) =~= seq![Seq::<char>::empty()]);
    while i < n
        invariant
            n == s@.len(),
            start <= i <= n,
            split_on(s@.take(i as int), c) == Seq::new(
                done@.len(),
                |k: int| s@.subrange(done@[k].0 as int, done@[k].1 as int),
            ).push(s@.subrange(start as int, i as int)),
            forall|k: int| 0 <= k < done@.len() ==> (#[trigger] done@[k]).0 <= done@[k].1 <= start,
        decreases n - i,
    {
        let ch = s.get_char(i);
        let ghost pre = split_on(s@.take(i as int), c);
        assert(s@.take(i + 1).drop_last() == s@.take(i as int));
        assert(s@.take(i + 1).last() == ch);
        let ghost old_done = done@;
        let ghost old_start = start;
        if ch == c {
            done.push((start, i));
            start = i + 1;
            assert(Seq::new(done@.len(), |k: int| s@.subrange(done@[k].0 as int, done@[k].1 as int))
                =~= Seq::new(
                old_done.len(),
                |k: int| s@.subrange(old_done[k].0 as int, old_done[k].1 as int),
            ).push(s@.subrange(old_start as int, i as int)));
            assert(s@.subrange(start as int, i + 1) =~= Seq::<char>::empty());
        } else {
            assert(s@.subrange(start as int, i + 1) =~= s@.subrange(start as int, i as int).push(ch));
        }
        i = i + 1;
    }
    assert(s@.take(n as int) == s@);
    done.push((start, n));
    done
}

fn split_pieces(s: &str, c: char) -> (r: Vec<String>)
    ensures
        r@.len() == split_on(s@, c).len(),
        forall|i: int| 0 <= i < r@.len() ==> (#[trigger] r@[i])@ == split_on(s@, c)[i],
{
    let ranges = split_ranges(s, c);
    let mut out: Vec<String> = Vec::new();
    let mut k: usize = 0;
    while k < ranges.len()
        invariant
            ranges@.len() == split_on(s@, c).len(),
            forall|i: int|
                0 <= i < ranges@.len() ==> (#[trigger] ranges@[i]).0 <= ranges@[i].1 <= s@.len()
                    && s@.subrange(ranges@[i].0 as int, ranges@[i].1 as int) == split_on(s@, c)[i],
            k <= ranges@.len(),
            out@.len() == k,
            forall|i: int| 0 <= i < k ==> (#[trigger] out@[i])@ == split_on(s@, c)[i],
        decreases ranges@.len() - k,
    {
        let (a, b) = ranges[k];
        assert(ranges@[k as int] == (a, b));
        let piece = s.substring_char(a, b);
        out.push(String::from_str(piece));
        k = k + 1;
    }
    out
}

/// A part of an instruction template: text to keep, or an expression to
/// evaluate followed by the text up to the next `{` (`None` when the closing
/// `}` is missing).
#[derive(Clone, Debug)]
pub enum InstructionPart {
    Text(String),
    Expression { expression: String, tail: Option<String> },
}

/// Whether `p` is part `index` of a template whose piece between braces is
/// `piece`: the first piece and empty pieces are text; any other piece is an
/// expression up to its first `}`, followed by the text up to its second `}`
/// (text after a second `}` is dropped).
pub open spec fn is_part(p: InstructionPart, index: int, piece: Seq<char>) -> bool {
    if index == 0 || piece.len() == 0 {
        p is Text && p->Text_0@ == piece
    } else {
        let sub = split_on(piece, '}');
        &&& p is Expression
        &&& p->expression@ == sub[0]
        &&& if sub.len() > 1 {
            p->tail is Some && p->tail->Some_0@ == sub[1]
        } else {
            p->tail is None
        }
    }
}

/// Cuts an instruction template into its parts: the text is split at each
/// `{`; the first piece and the empty pieces are kept as text, every other
/// piece holds an expression up to its `}`.
pub fn instruction_parts(instructions: &str) -> (parts: Vec<InstructionPart>)
    ensures
        parts@.len() == split_on(instructions@, '{').len(),
        forall|i: int|
            0 <= i < parts@.len() ==> is_part(
                #[trigger] parts@[i],
                i,
                split_on(instructions@, '{')[i],
            ),
{
    let pieces = split_pieces(instructions, '{');
    let mut parts: Vec<InstructionPart> = Vec::new();
    let mut k: usize = 0;
    while k < pieces.len()
        invariant
            pieces@.len() == split_on(instructions@, '{').len(),
            forall|i: int| 0 <= i < pieces@.len() ==> (#[trigger] pieces@[i])@ == split_on(instructions@, '{')[i],
            k <= pieces@.len(),
            parts@.len() == k,
            forall|i: int|
                0 <= i < k ==> is_part(#[trigger] parts@[i], i, split_on(instructions@, '{')[i]),
        decreases pieces@.len() - k,
    {
        let piece = &pieces[k];
        assert(piece@ == split_on(instructions@, '{')[k as int]);
        let empty = piece.as_str().unicode_len() == 0;
        if k == 0 || empty {
            parts.push(InstructionPart::Text(piece.clone()));
        } else {
            let sub = split_pieces(piece.as_str(), '}');
            proof {
                lemma_split_on_len(piece@, '}');
            }
            let expression = sub[0].clone();
            let tail = if sub.len() > 1 {
                Some(sub[1].clone())
            } else {
                None
            };
            parts.push(InstructionPart::Expression { expression, tail });
        }
        k = k + 1;
    }
    parts
}

/// The text an instruction template gives, part after part, where `values[i]`
/// is what evaluating the expression of part `i` gives. The first failure
/// stops: `Err(Some(e))` when an evaluation fails with `e`, `Err(None)` when
/// an expression has no closing `}` (its evaluation is looked at first).
pub open spec fn assembled(
    parts: Seq<InstructionPart>,
    values: Seq<Result<String, SlicerErrors>>,
) -> Result<Seq<char>, Option<SlicerErrors>>
    decreases parts.len(),
{
    if parts.len() == 0 {
        Ok(Seq::empty())
    } else {
        match assembled(parts.drop_last(), values) {
            Err(e) => Err(e),
            Ok(prev) => match parts.last() {
                InstructionPart::Text(t) => Ok(prev + t@),
                InstructionPart::Expression { tail, .. } => match values[parts.len() - 1] {
                    Err(e) => Err(Some(e)),
                    Ok(v) => match tail {
                        Some(t) => Ok(prev + v@ + t@),
                        None => Err(None),
                    },
                },
            },
        }
    }
}

/// Puts an instruction template back together: the text parts as they are,
/// and for each expression part the value of its expression (`values[i]` for
/// part `i`) followed by its tail. An evaluation that fails gives its error;
/// a missing closing `}` gives `SettingMacroParseError` with the message
/// "Missing end brace".
pub fn convert_instructions(
    parts: &[InstructionPart],
    values: &[Result<String, SlicerErrors>],
) -> (r: Result<String, SlicerErrors>)
    requires
        values@.len() == parts@.len(),
    ensures
        match r {
            Ok(s) => assembled(parts@, values@) == Ok::<Seq<char>, Option<SlicerErrors>>(s@),
            Err(e) => assembled(parts@, values@) == Err::<Seq<char>, Option<SlicerErrors>>(Some(e)) || (
            assembled(parts@, values@) == Err::<Seq<char>, Option<SlicerErrors>>(None)
                && e is SettingMacroParseError && e->sub_error@ == "Missing end brace"@),
        },
{
    let mut out = String::new();
    let mut k: usize = 0;
    while k < parts.len()
        invariant
            values@.len() == parts@.len(),
            k <= parts@.len(),
            assembled(parts@.take(k as int), values@) == Ok::<Seq<char>, Option<SlicerErrors>>(out@),
        decreases parts@.len() - k,
    {
        assert(parts@.take(k + 1).drop_last() == parts@.take(k as int));
        proof {
            lemma_assembled_prefix(parts@, values@, k as int + 1);
        }
        match &parts[k] {
            InstructionPart::Text(t) => {
                out.append(t.as_str());
            },
            InstructionPart::Expression { tail, .. } => {
                match &values[k] {
                    Err(e) => {
                        return Err(e.duplicate());
                    },
                    Ok(v) => {
                        match tail {
                            Some(t) => {
                                out.append(v.as_str());
                                out.append(t.as_str());
                            },
                            None => {
                                let msg = String::from_str("Missing end brace");
                                proof {
                                    reveal_strlit("Missing end brace");
                                }
                                return Err(SlicerErrors::SettingMacroParseError { sub_error: msg });
                            },
                        }
                    },
                }
            },
        }
        k = k + 1;
    }
    assert(parts@.take(parts@.len() as int) == parts@);
    Ok(out)
}

proof fn lemma_assembled_prefix(
    parts: Seq<InstructionPart>,
    values: Seq<Result<String, SlicerErrors>>,
    n: int,
)
    requires
        0 <= n <= parts.len(),
    ensures
        assembled(parts.take(n), values) is Err ==> assembled(parts, values) == assembled(
            parts.take(n),
            values,
        ),
    decreases parts.len() - n,
{
    if n < parts.len() {
        assert(parts.take(n + 1).drop_last() == parts.take(n));
        lemma_assembled_prefix(parts, values, n + 1);
    } else {
        assert(parts.take(n) == parts);
    }
}

proof fn lemma_split_without_separator(s: Seq<char>, c: char)
    requires
        !s.contains(c),
    ensures
        split_on(s, c) == seq![s],
    decreases s.len(),
{
    if s.len() > 0 {
        assert(!s.drop_last().contains(c)) by {
            if s.drop_last().contains(c) {
                let k = choose|k: int| 0 <= k < s.drop_last().len() && s.drop_last()[k] == c;
                assert(s[k] == c);
            }
        }
        lemma_split_without_separator(s.drop_last(), c);
        assert(s.last() != c) by {
            assert(s[s.len() - 1] == s.last());
        }
        assert(s.drop_last().push(s.last()) == s);
    } else {
        assert(s == Seq::<char>::empty());
    }
}

/// A template without `{` is given back as it is, whatever the values: its
/// only part is the whole text.
pub proof fn lemma_plain_text_is_kept(
    text: Seq<char>,
    parts: Seq<InstructionPart>,
    values: Seq<Result<String, SlicerErrors>>,
)
    requires
        !text.contains('{'),
        parts.len() == split_on(text, '{').len(),
        forall|i: int| 0 <= i < parts.len() ==> is_part(#[trigger] parts[i], i, split_on(text, '{')[i]),
        values.len() == parts.len(),
    ensures
        assembled(parts, values) == Ok::<Seq<char>, Option<SlicerErrors>>(text),
{
    lemma_split_without_separator(text, '{');
    assert(is_part(parts[0], 0, text));
    assert(parts.drop_last().len() == 0);
    assert(assembled(parts.drop_last(), values) == Ok::<Seq<char>, Option<SlicerErrors>>(Seq::empty()));
    assert(Seq::<char>::empty() + text == text);
}

} // verus!
