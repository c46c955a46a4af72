pub mod preprocessor;

use vstd::prelude::*;

use crate::encoding::{
    le_bytes, lemma_le_bytes_len, lemma_le_round_trip, lemma_pow256_values, pow256, push_le_bytes,
};
use crate::interpreter::{step, MachineState, STACK_SIZE};
use crate::opcode::{lemma_byte_encoding_bijective, lemma_mnemonic_round_trip, Opcode};
use crate::text::{
    chars_of, has_no_newline, is_comment, is_comment_token, is_word, lemma_decimal,
    lemma_lines_concat, lemma_parse_decimal, lemma_single_line, lemma_tokens_two_words,
    lemma_tokens_word, line_spans, lines, parse_u64, parse_u64_chars, spans_view,
    string_from_chars, token_spans, tokens,
};
use preprocessor::{
    encoded_len, lemma_resolve_prefix_ok, program_text, resolve_all, stage3_text,
    PreprocessorError, PreprocessorErrorView, Stage2View, Stage3, VarlenBytes,
};

verus! {

/// The bytes of one line of resolved assembly: a mnemonic, and for a
/// numbered push its operand, which must fit in the push's width. A token
/// after the instruction must start a comment.
pub open spec fn encode_tokens(ts: Seq<Seq<char>>) -> Result<Seq<u8>, PreprocessorErrorView> {
    if ts.len() == 0 {
        Err(PreprocessorErrorView::NoParameter)
    } else {
        match Opcode::spec_from_mnemonic(ts[0]) {
            None => Err(PreprocessorErrorView::UnknownOpcode(ts[0])),
            Some(op) => {
                let w = op.spec_operand_width();
                let (encoded, used) = if w == 0 {
                    (Ok(seq![op.spec_byte()]), 1int)
                } else if ts.len() < 2 {
                    (Err(PreprocessorErrorView::NoParameter), 2int)
                } else {
                    match parse_u64(ts[1]) {
                        Some(v) => if (v as nat) < pow256(w) {
                            (Ok(seq![op.spec_byte()] + le_bytes(v as nat, w)), 2int)
                        } else {
                            (Err(PreprocessorErrorView::NonParsableParameter(ts[1])), 2int)
                        },
                        None => (Err(PreprocessorErrorView::NonParsableParameter(ts[1])), 2int),
                    }
                };
                match encoded {
                    Err(e) => Err(e),
                    Ok(b) => if ts.len() > used && !is_comment(ts[used]) {
                        Err(PreprocessorErrorView::TextAfterStatement(ts[used]))
                    } else {
                        Ok(b)
                    },
                }
            },
        }
    }
}

/// The bytes of the given lines, in order, or the error of the first line
/// that fails.
pub open spec fn assemble_lines(ls: Seq<Seq<char>>) -> Result<Seq<u8>, PreprocessorErrorView>
    decreases ls.len(),
{
    if ls.len() == 0 {
        Ok(Seq::empty())
    } else {
        match assemble_lines(ls.drop_last()) {
            Err(e) => Err(e),
            Ok(p) => match encode_tokens(tokens(ls.last())) {
                Err(e) => Err(e),
                Ok(b) => Ok(p + b),
            },
        }
    }
}

proof fn lemma_assemble_lines_error(ls: Seq<Seq<char>>, k: int)
    requires
        0 <= k <= ls.len(),
        assemble_lines(ls.take(k)) is Err,
    ensures
        assemble_lines(ls) == assemble_lines(ls.take(k)),
    decreases ls.len() - k,
{
    if k < ls.len() {
        assert(ls.take(k + 1).drop_last() =~= ls.take(k));
        lemma_assemble_lines_error(ls, k + 1);
    } else {
        assert(ls.take(k) =~= ls);
    }
}

/// Whether `v` fits in `w` bytes.
fn fits_width(v: u64, w: usize) -> (r: bool)
    requires
        1 <= w <= 8,
    ensures
        r == ((v as nat) < pow256(w as nat)),
{
    proof {
        lemma_pow256_values();
    }
    match w {
        1 => v < 0x100,
        2 => v < 0x1_0000,
        3 => v < 0x100_0000,
        4 => v < 0x1_0000_0000,
        5 => v < 0x100_0000_0000,
        6 => v < 0x1_0000_0000_0000,
        7 => v < 0x100_0000_0000_0000,
        _ => true,
    }
}

/// Encodes one line, given the index pairs of its tokens in `cs`.
fn encode_line(cs: &[char], toks: &Vec<(usize, usize)>) -> (r: Result<Vec<u8>, PreprocessorError>)
    requires
        forall|i: int| 0 <= i < toks@.len() ==> #[trigger] toks@[i].0 <= toks@[i].1 <= cs@.len(),
    ensures
        match r {
            Ok(b) => encode_tokens(spans_view(cs@, toks@)) == Ok::<_, PreprocessorErrorView>(b@),
            Err(e) => encode_tokens(spans_view(cs@, toks@)) == Err::<Seq<u8>, _>(e@),
        },
{
    let ghost ts = spans_view(cs@, toks@);
    if toks.len() == 0 {
        return Err(PreprocessorError::NoParameter);
    }
    let mnemonic = &cs[toks[0].0..toks[0].1];
    assert(mnemonic@ == ts[0]);
    let opcode = match Opcode::from_mnemonic(mnemonic) {
        Some(op) => op,
        None => {
            return Err(PreprocessorError::UnknownOpcode(string_from_chars(mnemonic)));
        },
    };
    let width = opcode.operand_width();
    let mut bytecode: Vec<u8> = Vec::new();
    bytecode.push(opcode.to_byte());
    let mut used: usize = 1;
    if width > 0 {
        used = 2;
        if toks.len() < 2 {
            return Err(PreprocessorError::NoParameter);
        }
        let param_str = &cs[toks[1].0..toks[1].1];
        assert(param_str@ == ts[1]);
        let param = match parse_u64_chars(param_str) {
            Some(v) => v,
            None => {
                return Err(PreprocessorError::NonParsableParameter(string_from_chars(param_str)));
            },
        };
        if !fits_width(param, width) {
            return Err(PreprocessorError::NonParsableParameter(string_from_chars(param_str)));
        }
        push_le_bytes(&mut bytecode, param, width);
    }
    if toks.len() > used {
        let rest = &cs[toks[used].0..toks[used].1];
        assert(rest@ == ts[used as int]);
        if !is_comment_token(rest) {
            return Err(PreprocessorError::TextAfterStatement(string_from_chars(rest)));
        }
    }
    Ok(bytecode)
}

/// Assembles resolved assembly text, one instruction per line, into
/// bytecode.
pub fn assemble_string_to_bytes(input: &str) -> (r: Result<Vec<u8>, PreprocessorError>)
    ensures
        match r {
            Ok(b) => assemble_lines(lines(input@)) == Ok::<_, PreprocessorErrorView>(b@),
            Err(e) => assemble_lines(lines(input@)) == Err::<Seq<u8>, _>(e@),
        },
{
    let cs = chars_of(input);
    let spans = line_spans(cs.as_slice());
    let ghost ls = lines(input@);
    let mut bytecode: Vec<u8> = Vec::new();
    let mut i: usize = 0;
    assert(ls.take(0) =~= Seq::<Seq<char>>::empty());
    while i < spans.len()
        invariant
            cs@ == input@,
            ls == lines(input@),
            spans_view(cs@, spans@) == ls,
            forall|k: int| 0 <= k < spans@.len() ==> #[trigger] spans@[k].0 <= spans@[k].1 <= cs@.len(),
            i <= spans@.len(),
            assemble_lines(ls.take(i as int)) == Ok::<_, PreprocessorErrorView>(bytecode@),
        decreases spans@.len() - i,
    {
        let (lo, hi) = spans[i];
        assert(ls[i as int] == cs@.subrange(lo as int, hi as int));
        let toks = token_spans(cs.as_slice(), lo, hi);
        assert(ls.take(i + 1).drop_last() =~= ls.take(i as int));
        assert(ls.take(i + 1).last() == ls[i as int]);
        match encode_line(cs.as_slice(), &toks) {
            Ok(mut b) => {
                bytecode.append(&mut b);
            },
            Err(e) => {
                proof {
                    lemma_assemble_lines_error(ls, i + 1);
                }
                return Err(e);
            },
        }
        i = i + 1;
    }
    assert(ls.take(i as int) =~= ls);
    Ok(bytecode)
}

/// A resolved statement that the emitter can encode: an operand fits in its
/// container's width, and a bare opcode takes no operand.
pub open spec fn emittable(s: Stage3) -> bool {
    match s {
        Stage3::Opcode(op) => op.spec_operand_width() == 0,
        Stage3::Push(b) => (b.spec_value() as nat) < pow256(b.spec_byte_count()),
        Stage3::ResolvedGoto(b) => (b.spec_value() as nat) < pow256(b.spec_byte_count()),
        Stage3::ResolvedConditionalGoto(b) => (b.spec_value() as nat) < pow256(
            b.spec_byte_count(),
        ),
    }
}

/// The push opcode's byte and the operand, least significant byte first.
pub open spec fn push_bytes(b: VarlenBytes) -> Seq<u8> {
    seq![b.push_opcode().spec_byte()] + le_bytes(b.spec_value() as nat, b.spec_byte_count())
}

/// The binary encoding of a resolved statement.
pub open spec fn stage3_bytes(s: Stage3) -> Seq<u8> {
    match s {
        Stage3::Opcode(op) => seq![op.spec_byte()],
        Stage3::Push(b) => push_bytes(b),
        Stage3::ResolvedGoto(b) => push_bytes(b) + seq![Opcode::Goto.spec_byte()],
        Stage3::ResolvedConditionalGoto(b) => push_bytes(b) + seq![Opcode::GotoNz.spec_byte()],
    }
}

pub open spec fn encode_all(s: Seq<Stage3>) -> Seq<u8>
    decreases s.len(),
{
    if s.len() == 0 {
        Seq::empty()
    } else {
        encode_all(s.drop_last()) + stage3_bytes(s.last())
    }
}

proof fn lemma_assemble_lines_concat(a: Seq<Seq<char>>, b: Seq<Seq<char>>, p: Seq<u8>, q: Seq<u8>)
    requires
        assemble_lines(a) == Ok::<_, PreprocessorErrorView>(p),
        assemble_lines(b) == Ok::<_, PreprocessorErrorView>(q),
    ensures
        assemble_lines(a + b) == Ok::<_, PreprocessorErrorView>(p + q),
    decreases b.len(),
{
    if b.len() == 0 {
        assert(a + b =~= a);
        assert(p + q =~= p);
    } else {
        let q1 = assemble_lines(b.drop_last())->Ok_0;
        let last = encode_tokens(tokens(b.last()))->Ok_0;
        lemma_assemble_lines_concat(a, b.drop_last(), p, q1);
        assert((a + b).drop_last() =~= a + b.drop_last());
        assert((a + b).last() == b.last());
        assert(p + q =~= (p + q1) + last);
    }
}

proof fn lemma_push_width(n: nat)
    requires
        1 <= n <= 8,
    ensures
        Opcode::spec_push_of_width(n).spec_operand_width() == n,
{
}

/// The line of a push: its mnemonic, a space, and its value.
proof fn lemma_push_line(b: VarlenBytes)
    requires
        (b.spec_value() as nat) < pow256(b.spec_byte_count()),
    ensures
        has_no_newline(b.spec_text()),
        encode_tokens(tokens(b.spec_text())) == Ok::<_, PreprocessorErrorView>(push_bytes(b)),
{
    let op = b.push_opcode();
    let m = op.spec_mnemonic();
    let d = crate::text::decimal(b.spec_value() as nat);
    lemma_mnemonic_round_trip(op);
    lemma_decimal(b.spec_value() as nat);
    lemma_parse_decimal(b.spec_value());
    lemma_push_width(b.spec_byte_count());
    lemma_tokens_two_words(m, d);
    let t = b.spec_text();
    assert(t == m + seq![' '] + d);
    assert forall|i: int| 0 <= i < t.len() implies #[trigger] t[i] != '\n' by {
        if i < m.len() {
            assert(t[i] == m[i]);
        } else if i > m.len() {
            assert(t[i] == d[i - m.len() - 1]);
        }
    }
}

/// The line of a bare opcode: its mnemonic alone.
proof fn lemma_opcode_line(op: Opcode)
    requires
        op.spec_operand_width() == 0,
    ensures
        has_no_newline(op.spec_mnemonic()),
        encode_tokens(tokens(op.spec_mnemonic())) == Ok::<_, PreprocessorErrorView>(
            seq![op.spec_byte()],
        ),
{
    lemma_mnemonic_round_trip(op);
    lemma_tokens_word(op.spec_mnemonic());
}

proof fn lemma_one_line(t: Seq<char>, b: Seq<u8>)
    requires
        encode_tokens(tokens(t)) == Ok::<_, PreprocessorErrorView>(b),
    ensures
        assemble_lines(seq![t]) == Ok::<_, PreprocessorErrorView>(b),
{
    let one = seq![t];
    assert(one.drop_last() =~= Seq::<Seq<char>>::empty());
    assert(one.last() == t);
    assert(assemble_lines(one.drop_last()) == Ok::<_, PreprocessorErrorView>(Seq::<u8>::empty()));
    assert(Seq::<u8>::empty() + b =~= b);
}

/// The lines that a resolved statement is rendered as assemble to its
/// binary encoding.
proof fn lemma_statement_assembles(x: Stage3)
    requires
        emittable(x),
    ensures
        stage3_text(x).len() > 0,
        assemble_lines(lines(stage3_text(x) + seq!['\n'])) == Ok::<_, PreprocessorErrorView>(
            stage3_bytes(x),
        ),
{
    match x {
        Stage3::Opcode(op) => {
            lemma_opcode_line(op);
            lemma_single_line(op.spec_mnemonic());
            lemma_one_line(op.spec_mnemonic(), seq![op.spec_byte()]);
        },
        Stage3::Push(b) => {
            lemma_push_line(b);
            lemma_single_line(b.spec_text());
            lemma_one_line(b.spec_text(), push_bytes(b));
        },
        Stage3::ResolvedGoto(b) => {
            lemma_push_line(b);
            lemma_opcode_line(Opcode::Goto);
            let p = b.spec_text() + seq!['\n'];
            let g = Opcode::Goto.spec_mnemonic() + seq!['\n'];
            assert(stage3_text(x) + seq!['\n'] =~= p + g);
            lemma_lines_concat(p, g);
            lemma_single_line(b.spec_text());
            lemma_single_line(Opcode::Goto.spec_mnemonic());
            lemma_one_line(b.spec_text(), push_bytes(b));
            lemma_one_line(Opcode::Goto.spec_mnemonic(), seq![Opcode::Goto.spec_byte()]);
            lemma_assemble_lines_concat(
                seq![b.spec_text()],
                seq![Opcode::Goto.spec_mnemonic()],
                push_bytes(b),
                seq![Opcode::Goto.spec_byte()],
            );
            assert(seq![b.spec_text()] + seq![Opcode::Goto.spec_mnemonic()] =~= lines(p + g));
        },
        Stage3::ResolvedConditionalGoto(b) => {
            lemma_push_line(b);
            lemma_opcode_line(Opcode::GotoNz);
            let p = b.spec_text() + seq!['\n'];
            let g = Opcode::GotoNz.spec_mnemonic() + seq!['\n'];
            assert(stage3_text(x) + seq!['\n'] =~= p + g);
            lemma_lines_concat(p, g);
            lemma_single_line(b.spec_text());
            lemma_single_line(Opcode::GotoNz.spec_mnemonic());
            lemma_one_line(b.spec_text(), push_bytes(b));
            lemma_one_line(Opcode::GotoNz.spec_mnemonic(), seq![Opcode::GotoNz.spec_byte()]);
            lemma_assemble_lines_concat(
                seq![b.spec_text()],
                seq![Opcode::GotoNz.spec_mnemonic()],
                push_bytes(b),
                seq![Opcode::GotoNz.spec_byte()],
            );
            assert(seq![b.spec_text()] + seq![Opcode::GotoNz.spec_mnemonic()] =~= lines(p + g));
        },
    }
}

/// Assembling the text that `compile_statements` renders gives each
/// statement's binary encoding, in order: the opcode byte from the same
/// table that decodes it, then the operand least significant byte first.
pub proof fn lemma_emitted_text_assembles(s: Seq<Stage3>)
    requires
        forall|k: int| 0 <= k < s.len() ==> emittable(#[trigger] s[k]),
    ensures
        assemble_lines(lines(program_text(s))) == Ok::<_, PreprocessorErrorView>(encode_all(s)),
    decreases s.len(),
{
    if s.len() == 0 {
        assert(lines(program_text(s)) =~= Seq::<Seq<char>>::empty());
    } else {
        let rest = s.drop_last();
        let x = s.last();
        assert forall|k: int| 0 <= k < rest.len() implies emittable(#[trigger] rest[k]) by {
            assert(rest[k] == s[k]);
        }
        lemma_emitted_text_assembles(rest);
        lemma_statement_assembles(x);
        let a = program_text(rest);
        let t = stage3_text(x) + seq!['\n'];
        assert(program_text(s) =~= a + t);
        if rest.len() > 0 {
            assert(a.last() == '\n');
        }
        lemma_lines_concat(a, t);
        lemma_assemble_lines_concat(lines(a), lines(t), encode_all(rest), stage3_bytes(x));
    }
}

/// Each resolved statement is encoded in exactly the bytes that label
/// resolution counted for it, so the offset counted up to any statement is
/// where that statement starts in the emitted stream, and a label's recorded
/// offset is the byte right after its marker there.
pub proof fn lemma_counted_offsets_are_byte_offsets(s: Seq<Stage2View>, n: int)
    requires
        resolve_all(s) is Ok,
        0 <= n <= s.len(),
    ensures
        encode_all(resolve_all(s)->Ok_0.take(n)).len() == encoded_len(s.take(n)),
    decreases n,
{
    let r = resolve_all(s)->Ok_0;
    if n == 0 {
        assert(r.take(0) =~= Seq::<Stage3>::empty());
        assert(s.take(0) =~= Seq::<Stage2View>::empty());
    } else {
        lemma_counted_offsets_are_byte_offsets(s, n - 1);
        lemma_resolve_prefix_ok(s, s.len() as int, n - 1);
        assert(r.take(n).drop_last() =~= r.take(n - 1));
        assert(s.take(n).drop_last() =~= s.take(n - 1));
        assert(r.take(n).last() == r[n - 1]);
        assert(s.take(n).last() == s[n - 1]);
        match r[n - 1] {
            Stage3::Push(b) => lemma_le_bytes_len(b.spec_value() as nat, b.spec_byte_count()),
            Stage3::ResolvedGoto(b) => lemma_le_bytes_len(b.spec_value() as nat, b.spec_byte_count()),
            Stage3::ResolvedConditionalGoto(b) => lemma_le_bytes_len(
                b.spec_value() as nat,
                b.spec_byte_count(),
            ),
            _ => {},
        }
    }
}

/// The engine reads a push's operand in the byte order the emitter writes
/// it: stepping over the encoding of a push places its value on the stack
/// and moves past the operand.
pub proof fn lemma_emitted_push_executes(s: MachineState, b: VarlenBytes)
    requires
        emittable(Stage3::Push(b)),
        !s.halted,
        0 <= s.pc,
        s.pc + push_bytes(b).len() <= s.program.len(),
        s.program.subrange(s.pc, s.pc + push_bytes(b).len()) == push_bytes(b),
        s.stack.len() < STACK_SIZE,
    ensures
        push_bytes(b).len() == b.spec_byte_count() + 1,
        step(s) == (
            MachineState {
                pc: s.pc + b.spec_byte_count() + 1,
                stack: s.stack.push(b.spec_value()),
                ..s
            },
            Ok::<_, crate::interpreter::InterpreterError>(
                crate::interpreter::InterpreterEvent::Nothing,
            ),
        ),
{
    let n = b.spec_byte_count();
    let op = b.push_opcode();
    lemma_le_round_trip(b.spec_value() as nat, n);
    lemma_byte_encoding_bijective(op, op.spec_byte());
    lemma_push_width(n);
    let enc = push_bytes(b);
    assert(s.program[s.pc] == enc[0]);
    assert(s.program.subrange(s.pc + 1, s.pc + 1 + n) =~= enc.subrange(1, 1 + n as int));
    assert(enc.subrange(1, 1 + n as int) =~= le_bytes(b.spec_value() as nat, n));
}

} // verus!
