use vstd::prelude::*;

use crate::encoding::{min_width, pow256};
use crate::opcode::Opcode;
use crate::text::{
    chars_eq, chars_of, decimal, is_comment, is_comment_token, is_label, is_label_token,
    line_spans, lines, parse_u64, parse_u64_chars, push_decimal, push_str, spans_view,
    string_from_chars, token_spans, tokens,
};

verus! {

/// Container type representing a series of bytes with length between 1 and 8
#[derive(Debug, Clone, Copy, PartialEq, Eq, Structural)]
pub enum VarlenBytes {
    B1(u8),
    B2(u16),
    B3(u32),
    B4(u32),
    B5(u64),
    B6(u64),
    B7(u64),
    B8(u64),
}

impl VarlenBytes {
    pub open spec fn spec_value(self) -> u64 {
        match self {
            VarlenBytes::B1(v) => v as u64,
            VarlenBytes::B2(v) => v as u64,
            VarlenBytes::B3(v) => v as u64,
            VarlenBytes::B4(v) => v as u64,
            VarlenBytes::B5(v) => v,
            VarlenBytes::B6(v) => v,
            VarlenBytes::B7(v) => v,
            VarlenBytes::B8(v) => v,
        }
    }

    pub open spec fn spec_byte_count(self) -> nat {
        match self {
            VarlenBytes::B1(_) => 1,
            VarlenBytes::B2(_) => 2,
            VarlenBytes::B3(_) => 3,
            VarlenBytes::B4(_) => 4,
            VarlenBytes::B5(_) => 5,
            VarlenBytes::B6(_) => 6,
            VarlenBytes::B7(_) => 7,
            VarlenBytes::B8(_) => 8,
        }
    }

    /// The push opcode that carries this operand.
    pub open spec fn push_opcode(self) -> Opcode {
        Opcode::spec_push_of_width(self.spec_byte_count())
    }

    /// `push` followed by the decimal value, as in assembly text.
    pub open spec fn spec_text(self) -> Seq<char> {
        self.push_opcode().spec_mnemonic() + seq![' '] + decimal(self.spec_value() as nat)
    }

    pub fn value(&self) -> (r: u64)
        ensures
            r == self.spec_value(),
    {
        match *self {
            VarlenBytes::B1(v) => v as u64,
            VarlenBytes::B2(v) => v as u64,
            VarlenBytes::B3(v) => v as u64,
            VarlenBytes::B4(v) => v as u64,
            VarlenBytes::B5(v) => v,
            VarlenBytes::B6(v) => v,
            VarlenBytes::B7(v) => v,
            VarlenBytes::B8(v) => v,
        }
    }

    /// The mnemonic of the matching push opcode, a space, and the value.
    pub fn compile(self) -> (r: String)
        ensures
            r@ == self.spec_text(),
    {
        let mut out: Vec<char> = Vec::new();
        let op = Opcode::push_of_width(self.byte_count());
        push_str(&mut out, op.mnemonic());
        out.push(' ');
        push_decimal(&mut out, self.value());
        assert(out@ =~= self.spec_text());
        string_from_chars(out.as_slice())
    }

    /// The same value in the narrowest container that holds it.
    pub fn reduce(&self) -> (r: VarlenBytes)
        ensures
            r == narrowest(self.spec_value()),
    {
        let num: u64 = self.value();
        if num < 0x100 {
            VarlenBytes::B1(num as u8)
        } else if num < 0x1_0000 {
            VarlenBytes::B2(num as u16)
        } else if num < 0x100_0000 {
            VarlenBytes::B3(num as u32)
        } else if num < 0x1_0000_0000 {
            VarlenBytes::B4(num as u32)
        } else if num < 0x100_0000_0000 {
            VarlenBytes::B5(num)
        } else if num < 0x1_0000_0000_0000 {
            VarlenBytes::B6(num)
        } else if num < 0x100_0000_0000_0000 {
            VarlenBytes::B7(num)
        } else {
            VarlenBytes::B8(num)
        }
    }

    pub fn byte_count(&self) -> (r: usize)
        ensures
            r as nat == self.spec_byte_count(),
            1 <= r <= 8,
    {
        match self {
            VarlenBytes::B1(_) => 1,
            VarlenBytes::B2(_) => 2,
            VarlenBytes::B3(_) => 3,
            VarlenBytes::B4(_) => 4,
            VarlenBytes::B5(_) => 5,
            VarlenBytes::B6(_) => 6,
            VarlenBytes::B7(_) => 7,
            VarlenBytes::B8(_) => 8,
        }
    }
}

/// The narrowest container for `v`.
pub open spec fn narrowest(v: u64) -> VarlenBytes {
    if v < 0x100 {
        VarlenBytes::B1(v as u8)
    } else if v < 0x1_0000 {
        VarlenBytes::B2(v as u16)
    } else if v < 0x100_0000 {
        VarlenBytes::B3(v as u32)
    } else if v < 0x1_0000_0000 {
        VarlenBytes::B4(v as u32)
    } else if v < 0x100_0000_0000 {
        VarlenBytes::B5(v)
    } else if v < 0x1_0000_0000_0000 {
        VarlenBytes::B6(v)
    } else if v < 0x100_0000_0000_0000 {
        VarlenBytes::B7(v)
    } else {
        VarlenBytes::B8(v)
    }
}

impl From<VarlenBytes> for u64 {
    fn from(val: VarlenBytes) -> (r: u64) {
        val.value()
    }
}

impl vstd::std_specs::convert::FromSpecImpl<VarlenBytes> for u64 {
    open spec fn obeys_from_spec() -> bool {
        true
    }

    open spec fn from_spec(v: VarlenBytes) -> u64 {
        v.spec_value()
    }
}

impl From<u64> for VarlenBytes {
    fn from(value: u64) -> (r: VarlenBytes) {
        VarlenBytes::B8(value)
    }
}

impl vstd::std_specs::convert::FromSpecImpl<u64> for VarlenBytes {
    open spec fn obeys_from_spec() -> bool {
        true
    }

    open spec fn from_spec(v: u64) -> VarlenBytes {
        VarlenBytes::B8(v)
    }
}

#[derive(Debug, Clone, Copy, PartialEq, Eq, Structural)]
pub enum Alias {
    Increment,
    Decrement,
}

/// The alias that a mnemonic names, if any.
pub open spec fn spec_alias(t: Seq<char>) -> Option<Alias> {
    if t == "INC"@ {
        Some(Alias::Increment)
    } else if t == "DEC"@ {
        Some(Alias::Decrement)
    } else {
        None
    }
}

/// The primitive statements that an alias stands for.
pub open spec fn alias_expansion(a: Alias) -> Seq<Stage2View> {
    match a {
        Alias::Increment => seq![
            Stage2View::Push(VarlenBytes::B1(1)),
            Stage2View::Opcode(Opcode::Add),
        ],
        Alias::Decrement => seq![
            Stage2View::Push(VarlenBytes::B1(1)),
            Stage2View::Opcode(Opcode::Swap),
            Stage2View::Opcode(Opcode::Sub),
        ],
    }
}

impl Alias {
    fn from_str(input: &[char]) -> (r: Option<Alias>)
        ensures
            r == spec_alias(input@),
    {
        if chars_eq(input, "INC") {
            Some(Alias::Increment)
        } else if chars_eq(input, "DEC") {
            Some(Alias::Decrement)
        } else {
            None
        }
    }

    fn compile(self) -> (r: Vec<Stage2>)
        ensures
            views2(r@) == alias_expansion(self),
    {
        let mut statements = Vec::new();
        match self {
            Alias::Increment => {
                statements.push(Stage2::Push(VarlenBytes::B1(1)));
                statements.push(Stage2::Opcode(Opcode::Add));
            },
            Alias::Decrement => {
                statements.push(Stage2::Push(VarlenBytes::B1(1)));
                statements.push(Stage2::Opcode(Opcode::Swap));
                statements.push(Stage2::Opcode(Opcode::Sub));
            },
        }
        assert(views2(statements@) =~= alias_expansion(self));
        statements
    }
}

#[derive(Debug, PartialEq, Eq)]
pub enum Stage1 {
    /// Empty line, or comment
    Empty,
    Opcode(Opcode),
    Alias(Alias),
    Push(u64),
    GotoLabel(String),
    UnresolvedGoto(String),
    UnresolvedConditionalGoto(String),
}

/// A `Stage1` statement with its names as character sequences.
pub enum Stage1View {
    Empty,
    Opcode(Opcode),
    Alias(Alias),
    Push(u64),
    GotoLabel(Seq<char>),
    UnresolvedGoto(Seq<char>),
    UnresolvedConditionalGoto(Seq<char>),
}

impl View for Stage1 {
    type V = Stage1View;

    open spec fn view(&self) -> Stage1View {
        match self {
            Stage1::Empty => Stage1View::Empty,
            Stage1::Opcode(op) => Stage1View::Opcode(*op),
            Stage1::Alias(a) => Stage1View::Alias(*a),
            Stage1::Push(v) => Stage1View::Push(*v),
            Stage1::GotoLabel(s) => Stage1View::GotoLabel(s@),
            Stage1::UnresolvedGoto(s) => Stage1View::UnresolvedGoto(s@),
            Stage1::UnresolvedConditionalGoto(s) => Stage1View::UnresolvedConditionalGoto(s@),
        }
    }
}

#[derive(Debug, PartialEq, Eq)]
pub enum Stage2 {
    Opcode(Opcode),
    Push(VarlenBytes),
    GotoLabel(String),
    UnresolvedGoto(String),
    UnresolvedConditionalGoto(String),
}

/// A `Stage2` statement with its names as character sequences.
pub enum Stage2View {
    Opcode(Opcode),
    Push(VarlenBytes),
    GotoLabel(Seq<char>),
    UnresolvedGoto(Seq<char>),
    UnresolvedConditionalGoto(Seq<char>),
}

impl View for Stage2 {
    type V = Stage2View;

    open spec fn view(&self) -> Stage2View {
        match self {
            Stage2::Opcode(op) => Stage2View::Opcode(*op),
            Stage2::Push(b) => Stage2View::Push(*b),
            Stage2::GotoLabel(s) => Stage2View::GotoLabel(s@),
            Stage2::UnresolvedGoto(s) => Stage2View::UnresolvedGoto(s@),
            Stage2::UnresolvedConditionalGoto(s) => Stage2View::UnresolvedConditionalGoto(s@),
        }
    }
}

#[derive(Debug, Clone, Copy, PartialEq, Eq, Structural)]
pub enum Stage3 {
    Opcode(Opcode),
    Push(VarlenBytes),
    ResolvedGoto(VarlenBytes),
    ResolvedConditionalGoto(VarlenBytes),
}

pub open spec fn views1(s: Seq<Stage1>) -> Seq<Stage1View> {
    s.map_values(|x: Stage1| x@)
}

pub open spec fn views2(s: Seq<Stage2>) -> Seq<Stage2View> {
    s.map_values(|x: Stage2| x@)
}

impl Stage2View {
    /// Bytes that the statement takes in the encoded stream. An unresolved
    /// jump is counted as the eight-byte push of its address and the jump.
    pub open spec fn byte_count(self) -> nat {
        match self {
            Stage2View::Opcode(_) => 1,
            Stage2View::Push(b) => b.spec_byte_count() + 1,
            Stage2View::UnresolvedGoto(_) => 10,
            Stage2View::UnresolvedConditionalGoto(_) => 10,
            Stage2View::GotoLabel(_) => 1,
        }
    }
}

impl Stage2 {
    fn byte_count(&self) -> (r: usize)
        ensures
            r as nat == self@.byte_count(),
            r <= 10,
    {
        match self {
            Stage2::Opcode(_) => 1,
            Stage2::Push(b) => b.byte_count() + 1,
            Stage2::UnresolvedGoto(_) => 10,  // goto = 1, push8 = 1, push8 bytes = 8
            Stage2::UnresolvedConditionalGoto(_) => 10,  // goto = 1, push8 = 1, push8 bytes = 8
            Stage2::GotoLabel(_) => 1,
        }
    }
}

/// The assembly text of a resolved statement; a resolved jump takes two lines.
pub open spec fn stage3_text(s: Stage3) -> Seq<char> {
    match s {
        Stage3::Opcode(op) => op.spec_mnemonic(),
        Stage3::Push(b) => b.spec_text(),
        Stage3::ResolvedGoto(b) => b.spec_text() + seq!['\n'] + Opcode::Goto.spec_mnemonic(),
        Stage3::ResolvedConditionalGoto(b) => b.spec_text() + seq!['\n']
            + Opcode::GotoNz.spec_mnemonic(),
    }
}

impl Stage3 {
    pub fn compile(self) -> (r: String)
        ensures
            r@ == stage3_text(self),
    {
        let mut out = String::new();
        match self {
            Stage3::Opcode(opcode) => out.append(opcode.mnemonic()),
            Stage3::Push(bytes) => {
                out.append(bytes.compile().as_str());
            },
            Stage3::ResolvedGoto(bytes) => {
                out.append(bytes.compile().as_str());
                out.append("\n");
                out.append(Opcode::Goto.mnemonic());
            },
            Stage3::ResolvedConditionalGoto(bytes) => {
                out.append(bytes.compile().as_str());
                out.append("\n");
                out.append(Opcode::GotoNz.mnemonic());
            },
        }
        proof {
            reveal_strlit("\n");
        }
        assert(out@ =~= stage3_text(self));
        out
    }
}

/// The error with its names as character sequences.
pub enum PreprocessorErrorView {
    UsedNumberedPushOpcode,
    NonParsableParameter(Seq<char>),
    InvalidGoto(Seq<char>),
    TextAfterStatement(Seq<char>),
    UnknownOpcode(Seq<char>),
    NoParameter,
    UndeclaredLabel(Seq<char>),
}

#[derive(Debug, PartialEq, Eq)]
pub enum PreprocessorError {
    /// A numbered push mnemonic where the generic `PUSH` belongs
    UsedNumberedPushOpcode,
    NonParsableParameter(String),
    /// A jump whose operand is not a label reference
    InvalidGoto(String),
    TextAfterStatement(String),
    UnknownOpcode(String),
    NoParameter,
    /// A jump to a label that is never declared
    UndeclaredLabel(String),
}

impl View for PreprocessorError {
    type V = PreprocessorErrorView;

    open spec fn view(&self) -> PreprocessorErrorView {
        match self {
            PreprocessorError::UsedNumberedPushOpcode => PreprocessorErrorView::UsedNumberedPushOpcode,
            PreprocessorError::NonParsableParameter(s) => PreprocessorErrorView::NonParsableParameter(s@),
            PreprocessorError::InvalidGoto(s) => PreprocessorErrorView::InvalidGoto(s@),
            PreprocessorError::TextAfterStatement(s) => PreprocessorErrorView::TextAfterStatement(s@),
            PreprocessorError::UnknownOpcode(s) => PreprocessorErrorView::UnknownOpcode(s@),
            PreprocessorError::NoParameter => PreprocessorErrorView::NoParameter,
            PreprocessorError::UndeclaredLabel(s) => PreprocessorErrorView::UndeclaredLabel(s@),
        }
    }
}

/// A result seen through the views of its statements and error.
pub open spec fn result_view<T: View>(r: Result<T, PreprocessorError>) -> Result<
    T::V,
    PreprocessorErrorView,
> {
    match r {
        Ok(v) => Ok(v@),
        Err(e) => Err(e@),
    }
}

/// The statement that the first tokens of a line form, and how many tokens
/// it takes, before trailing tokens are checked.
pub open spec fn statement_of(ts: Seq<Seq<char>>) -> (Result<Stage1View, PreprocessorErrorView>, int) {
    let first = ts[0];
    if is_label(first) {
        (Ok(Stage1View::GotoLabel(first)), 1)
    } else if spec_alias(first) is Some {
        (Ok(Stage1View::Alias(spec_alias(first)->0)), 1)
    } else if first == "PUSH"@ {
        if ts.len() < 2 {
            (Err(PreprocessorErrorView::NoParameter), 2)
        } else {
            match parse_u64(ts[1]) {
                Some(v) => (Ok(Stage1View::Push(v)), 2),
                None => (Err(PreprocessorErrorView::NonParsableParameter(ts[1])), 2),
            }
        }
    } else {
        match Opcode::spec_from_mnemonic(first) {
            None => (Err(PreprocessorErrorView::UnknownOpcode(first)), 1),
            Some(op) => if (op is Goto || op is GotoNz) && ts.len() >= 2 {
                if !is_label(ts[1]) {
                    (Err(PreprocessorErrorView::InvalidGoto(ts[1])), 2)
                } else if op is Goto {
                    (Ok(Stage1View::UnresolvedGoto(ts[1])), 2)
                } else {
                    (Ok(Stage1View::UnresolvedConditionalGoto(ts[1])), 2)
                }
            } else if op.is_push() {
                (Err(PreprocessorErrorView::UsedNumberedPushOpcode), 1)
            } else {
                (Ok(Stage1View::Opcode(op)), 1)
            },
        }
    }
}

/// What one line of assembly parses to, given its whitespace-separated
/// tokens. A blank line or a line starting with `//` is empty; a token
/// after the statement must start a comment.
pub open spec fn parse_tokens(ts: Seq<Seq<char>>) -> Result<Stage1View, PreprocessorErrorView> {
    if ts.len() == 0 || is_comment(ts[0]) {
        Ok(Stage1View::Empty)
    } else {
        let (parsed, used) = statement_of(ts);
        match parsed {
            Err(e) => Err(e),
            Ok(st) => if ts.len() > used && !is_comment(ts[used]) {
                Err(PreprocessorErrorView::TextAfterStatement(ts[used]))
            } else {
                Ok(st)
            },
        }
    }
}

/// The statements of the given lines, or the error of the first line that
/// fails.
pub open spec fn parse_lines(ls: Seq<Seq<char>>) -> Result<Seq<Stage1View>, PreprocessorErrorView>
    decreases ls.len(),
{
    if ls.len() == 0 {
        Ok(Seq::empty())
    } else {
        match parse_lines(ls.drop_last()) {
            Err(e) => Err(e),
            Ok(p) => match parse_tokens(tokens(ls.last())) {
                Err(e) => Err(e),
                Ok(st) => Ok(p.push(st)),
            },
        }
    }
}

/// The primitive statements that a stage-one statement lowers to; a push
/// takes the narrowest width that holds its literal.
pub open spec fn lower(s: Stage1View) -> Seq<Stage2View> {
    match s {
        Stage1View::Empty => Seq::empty(),
        Stage1View::Opcode(op) => seq![Stage2View::Opcode(op)],
        Stage1View::Alias(a) => alias_expansion(a),
        Stage1View::Push(v) => if v == 0 {
            seq![Stage2View::Opcode(Opcode::Push0)]
        } else {
            seq![Stage2View::Push(narrowest(v))]
        },
        Stage1View::GotoLabel(l) => seq![Stage2View::GotoLabel(l)],
        Stage1View::UnresolvedGoto(l) => seq![Stage2View::UnresolvedGoto(l)],
        Stage1View::UnresolvedConditionalGoto(l) => seq![Stage2View::UnresolvedConditionalGoto(l)],
    }
}

pub open spec fn lower_all(s: Seq<Stage1View>) -> Seq<Stage2View>
    decreases s.len(),
{
    if s.len() == 0 {
        Seq::empty()
    } else {
        lower_all(s.drop_last()) + lower(s.last())
    }
}

/// Bytes that the statements take in the encoded stream.
pub open spec fn encoded_len(s: Seq<Stage2View>) -> nat
    decreases s.len(),
{
    if s.len() == 0 {
        0
    } else {
        encoded_len(s.drop_last()) + s.last().byte_count()
    }
}

/// The offset of the byte right after the marker of the last declaration of
/// `name`, if `name` is declared.
pub open spec fn label_target(s: Seq<Stage2View>, name: Seq<char>) -> Option<nat>
    decreases s.len(),
{
    if s.len() == 0 {
        None
    } else if s.last() == Stage2View::GotoLabel(name) {
        Some(encoded_len(s))
    } else {
        label_target(s.drop_last(), name)
    }
}

/// A statement with its label reference replaced by the label's offset.
pub open spec fn resolve(st: Stage2View, s: Seq<Stage2View>) -> Result<Stage3, PreprocessorErrorView> {
    match st {
        Stage2View::Opcode(op) => Ok(Stage3::Opcode(op)),
        Stage2View::Push(b) => Ok(Stage3::Push(b)),
        Stage2View::GotoLabel(_) => Ok(Stage3::Opcode(Opcode::GotoTarget)),
        Stage2View::UnresolvedGoto(l) => match label_target(s, l) {
            Some(o) => Ok(Stage3::ResolvedGoto(VarlenBytes::B8(o as u64))),
            None => Err(PreprocessorErrorView::UndeclaredLabel(l)),
        },
        Stage2View::UnresolvedConditionalGoto(l) => match label_target(s, l) {
            Some(o) => Ok(Stage3::ResolvedConditionalGoto(VarlenBytes::B8(o as u64))),
            None => Err(PreprocessorErrorView::UndeclaredLabel(l)),
        },
    }
}

/// The first `n` statements of `s` resolved against all of `s`, or the
/// error of the first that fails.
pub open spec fn resolve_prefix(s: Seq<Stage2View>, n: int) -> Result<Seq<Stage3>, PreprocessorErrorView>
    decreases n,
{
    if n <= 0 {
        Ok(Seq::empty())
    } else {
        match resolve_prefix(s, n - 1) {
            Err(e) => Err(e),
            Ok(p) => match resolve(s[n - 1], s) {
                Err(e) => Err(e),
                Ok(x) => Ok(p.push(x)),
            },
        }
    }
}

pub open spec fn resolve_all(s: Seq<Stage2View>) -> Result<Seq<Stage3>, PreprocessorErrorView> {
    resolve_prefix(s, s.len() as int)
}

/// The assembly text of resolved statements, one line each.
pub open spec fn program_text(s: Seq<Stage3>) -> Seq<char>
    decreases s.len(),
{
    if s.len() == 0 {
        Seq::empty()
    } else {
        program_text(s.drop_last()) + stage3_text(s.last()) + seq!['\n']
    }
}

proof fn lemma_parse_lines_error(ls: Seq<Seq<char>>, k: int)
    requires
        0 <= k <= ls.len(),
        parse_lines(ls.take(k)) is Err,
    ensures
        parse_lines(ls) == parse_lines(ls.take(k)),
    decreases ls.len() - k,
{
    if k < ls.len() {
        assert(ls.take(k + 1).drop_last() =~= ls.take(k));
        lemma_parse_lines_error(ls, k + 1);
    } else {
        assert(ls.take(k) =~= ls);
    }
}

proof fn lemma_resolve_prefix_error(s: Seq<Stage2View>, k: int, n: int)
    requires
        0 <= k <= n,
        resolve_prefix(s, k) is Err,
    ensures
        resolve_prefix(s, n) == resolve_prefix(s, k),
    decreases n - k,
{
    if k < n {
        lemma_resolve_prefix_error(s, k, n - 1);
    }
}

proof fn lemma_encoded_len_bound(s: Seq<Stage2View>)
    ensures
        encoded_len(s) <= 10 * s.len(),
    decreases s.len(),
{
    if s.len() > 0 {
        lemma_encoded_len_bound(s.drop_last());
    }
}

/// Parses one line, given the index pairs of its tokens in `cs`.
fn parse_line(cs: &[char], toks: &Vec<(usize, usize)>) -> (r: Result<Stage1, PreprocessorError>)
    requires
        forall|i: int| 0 <= i < toks@.len() ==> #[trigger] toks@[i].0 <= toks@[i].1 <= cs@.len(),
    ensures
        result_view(r) == parse_tokens(spans_view(cs@, toks@)),
{
    let ghost ts = spans_view(cs@, toks@);
    if toks.len() == 0 {
        return Ok(Stage1::Empty);
    }
    let first = &cs[toks[0].0..toks[0].1];
    assert(first@ == ts[0]);
    if is_comment_token(first) {
        return Ok(Stage1::Empty);
    }
    let mut used: usize = 1;
    let parsed = if is_label_token(first) {
        Stage1::GotoLabel(string_from_chars(first))
    } else if let Some(a) = Alias::from_str(first) {
        Stage1::Alias(a)
    } else if chars_eq(first, "PUSH") {
        used = 2;
        if toks.len() < 2 {
            return Err(PreprocessorError::NoParameter);
        }
        let parameter = &cs[toks[1].0..toks[1].1];
        assert(parameter@ == ts[1]);
        match parse_u64_chars(parameter) {
            Some(v) => Stage1::Push(v),
            None => {
                return Err(PreprocessorError::NonParsableParameter(string_from_chars(parameter)));
            },
        }
    } else {
        let op = match Opcode::from_mnemonic(first) {
            Some(op) => op,
            None => {
                return Err(PreprocessorError::UnknownOpcode(string_from_chars(first)));
            },
        };
        match op {
            Opcode::Goto | Opcode::GotoNz => {
                if toks.len() >= 2 {
                    used = 2;
                    let label = &cs[toks[1].0..toks[1].1];
                    assert(label@ == ts[1]);
                    if !is_label_token(label) {
                        return Err(PreprocessorError::InvalidGoto(string_from_chars(label)));
                    }
                    if op == Opcode::Goto {
                        Stage1::UnresolvedGoto(string_from_chars(label))
                    } else {
                        Stage1::UnresolvedConditionalGoto(string_from_chars(label))
                    }
                } else {
                    // Raw goto
                    Stage1::Opcode(op)
                }
            },
            Opcode::Push0 | Opcode::Push1 | Opcode::Push2 | Opcode::Push3 | Opcode::Push4
            | Opcode::Push5 | Opcode::Push6 | Opcode::Push7 | Opcode::Push8 => {
                return Err(PreprocessorError::UsedNumberedPushOpcode);
            },
            _ => Stage1::Opcode(op),
        }
    };
    assert(statement_of(ts).1 == used as int);
    if toks.len() > used {
        let rest = &cs[toks[used].0..toks[used].1];
        assert(rest@ == ts[used as int]);
        if !is_comment_token(rest) {
            return Err(PreprocessorError::TextAfterStatement(string_from_chars(rest)));
        }
    }
    Ok(parsed)
}

/// Parses assembly text into stage-one statements, one per line.
pub fn parse_to_statements(input: &str) -> (r: Result<Vec<Stage1>, PreprocessorError>)
    ensures
        match r {
            Ok(v) => parse_lines(lines(input@)) == Ok::<_, PreprocessorErrorView>(views1(v@)),
            Err(e) => parse_lines(lines(input@)) == Err::<Seq<Stage1View>, _>(e@),
        },
{
    let cs = chars_of(input);
    let spans = line_spans(cs.as_slice());
    let ghost ls = lines(input@);
    let mut statements: Vec<Stage1> = Vec::new();
    let mut i: usize = 0;
    assert(ls.take(0) =~= Seq::<Seq<char>>::empty());
    assert(views1(statements@) =~= Seq::<Stage1View>::empty());
    while i < spans.len()
        invariant
            cs@ == input@,
            ls == lines(input@),
            spans_view(cs@, spans@) == ls,
            forall|k: int| 0 <= k < spans@.len() ==> #[trigger] spans@[k].0 <= spans@[k].1 <= cs@.len(),
            i <= spans@.len(),
            parse_lines(ls.take(i as int)) == Ok::<_, PreprocessorErrorView>(views1(statements@)),
        decreases spans@.len() - i,
    {
        let (lo, hi) = spans[i];
        assert(ls[i as int] == cs@.subrange(lo as int, hi as int));
        let toks = token_spans(cs.as_slice(), lo, hi);
        let parsed = parse_line(cs.as_slice(), &toks);
        assert(ls.take(i + 1).drop_last() =~= ls.take(i as int));
        assert(ls.take(i + 1).last() == ls[i as int]);
        match parsed {
            Ok(s) => {
                let ghost before = statements@;
                statements.push(s);
                assert(views1(statements@) =~= views1(before).push(s@));
            },
            Err(e) => {
                proof {
                    lemma_parse_lines_error(ls, i + 1);
                }
                return Err(e);
            },
        }
        i = i + 1;
    }
    assert(ls.take(i as int) =~= ls);
    Ok(statements)
}

/// Renders resolved statements as assembly text, one line each.
pub fn compile_statements(statements: Vec<Stage3>) -> (r: Result<String, PreprocessorError>)
    ensures
        r is Ok,
        r->Ok_0@ == program_text(statements@),
{
    let mut out = String::new();
    let mut i: usize = 0;
    proof {
        reveal_strlit("\n");
    }
    while i < statements.len()
        invariant
            i <= statements@.len(),
            out@ == program_text(statements@.take(i as int)),
            "\n"@ == seq!['\n'],
        decreases statements@.len() - i,
    {
        let text = statements[i].compile();
        out.append(text.as_str());
        out.append("\n");
        assert(statements@.take(i + 1).drop_last() =~= statements@.take(i as int));
        i = i + 1;
    }
    assert(statements@.take(i as int) =~= statements@);
    Ok(out)
}

/// Lowers stage-one statements: aliases expand to their primitive
/// statements and each push takes the narrowest width for its literal.
pub fn to_stage2(statements: Vec<Stage1>) -> (r: Result<Vec<Stage2>, PreprocessorError>)
    ensures
        r is Ok,
        views2(r->Ok_0@) == lower_all(views1(statements@)),
{
    let ghost input = views1(statements@);
    let mut out: Vec<Stage2> = Vec::new();
    assert(views2(out@) =~= lower_all(input.take(0)));
    for statement in it: statements.into_iter()
        invariant
            views1(it.seq()) == input,
            views2(out@) == lower_all(input.take(it.index() as int)),
    {
        let ghost k = it.index() as int;
        let ghost before = out@;
        assert(input[k] == statement@);
        assert(input.take(k + 1).drop_last() =~= input.take(k));
        match statement {
            Stage1::Opcode(opcode) => out.push(Stage2::Opcode(opcode)),
            Stage1::Alias(alias) => {
                let mut expanded = alias.compile();
                out.append(&mut expanded);
            },
            Stage1::Push(v) => {
                let new = if v == 0 {
                    Stage2::Opcode(Opcode::Push0)
                } else {
                    let b = VarlenBytes::from(v).reduce();
                    Stage2::Push(b)
                };
                out.push(new);
            },
            Stage1::GotoLabel(s) => out.push(Stage2::GotoLabel(s)),
            Stage1::UnresolvedGoto(s) => out.push(Stage2::UnresolvedGoto(s)),
            Stage1::UnresolvedConditionalGoto(s) => out.push(Stage2::UnresolvedConditionalGoto(s)),
            Stage1::Empty => (),
        }
        assert(views2(out@) =~= views2(before) + lower(input[k]));
    }
    assert(input.take(input.len() as int) =~= input);
    Ok(out)
}

/// The offset recorded for `name` in a label table: its last entry.
pub open spec fn table_lookup(t: Seq<(Seq<char>, u64)>, name: Seq<char>) -> Option<nat>
    decreases t.len(),
{
    if t.len() == 0 {
        None
    } else if t.last().0 == name {
        Some(t.last().1 as nat)
    } else {
        table_lookup(t.drop_last(), name)
    }
}

pub open spec fn table_view(t: Seq<(String, u64)>) -> Seq<(Seq<char>, u64)> {
    t.map_values(|e: (String, u64)| (e.0@, e.1))
}

fn find_label(table: &Vec<(String, u64)>, name: &String) -> (r: Option<u64>)
    ensures
        match table_lookup(table_view(table@), name@) {
            Some(o) => r == Some(o as u64),
            None => r is None,
        },
{
    let ghost tv = table_view(table@);
    let mut k: usize = table.len();
    assert(tv.take(k as int) =~= tv);
    while k > 0
        invariant
            k <= table@.len(),
            tv == table_view(table@),
            table_lookup(tv, name@) == table_lookup(tv.take(k as int), name@),
        decreases k,
    {
        assert(tv.take(k as int).last() == (table@[k - 1].0@, table@[k - 1].1));
        if table[k - 1].0 == *name {
            return Some(table[k - 1].1);
        }
        assert(tv.take(k as int).drop_last() =~= tv.take(k - 1));
        k = k - 1;
    }
    None
}

/// Resolves every label reference to the offset that follows the label's
/// marker, and turns each label declaration into its marker.
///
/// Offsets come from one forward pass over the encoded lengths, where each
/// unresolved jump counts as an eight-byte push and the jump; a resolved jump
/// keeps that eight-byte push, so every recorded offset stays exact.
pub fn to_stage3(input: Vec<Stage2>) -> (r: Result<Vec<Stage3>, PreprocessorError>)
    requires
        input@.len() * 10 <= u64::MAX,
    ensures
        result_view(r) == resolve_all(views2(input@)),
{
    let ghost sv = views2(input@);
    let mut table: Vec<(String, u64)> = Vec::new();
    let mut byte_count: u64 = 0;
    let mut i: usize = 0;
    assert(sv.take(0) =~= Seq::<Stage2View>::empty());
    while i < input.len()
        invariant
            sv == views2(input@),
            input@.len() * 10 <= u64::MAX,
            i <= input@.len(),
            byte_count == encoded_len(sv.take(i as int)),
            forall|name: Seq<char>|
                #![trigger table_lookup(table_view(table@), name)]
                table_lookup(table_view(table@), name) == label_target(sv.take(i as int), name),
        decreases input@.len() - i,
    {
        proof {
            lemma_encoded_len_bound(sv.take(i + 1));
        }
        let ghost before = table@;
        assert(sv.take(i + 1).drop_last() =~= sv.take(i as int));
        assert(sv.take(i + 1).last() == input@[i as int]@);
        byte_count = byte_count + input[i].byte_count() as u64;
        if let Stage2::GotoLabel(label) = &input[i] {
            table.push((label.clone(), byte_count));
            proof {
                assert(table_view(table@).drop_last() =~= table_view(before));
                assert(table_view(table@).last() == (label@, byte_count));
                assert forall|name: Seq<char>|
                    #![trigger table_lookup(table_view(table@), name)]
                    table_lookup(table_view(table@), name) == label_target(sv.take(i + 1), name) by {
                    assert(table_lookup(table_view(before), name) == label_target(sv.take(i as int), name));
                }
            }
        } else {
            proof {
                assert forall|name: Seq<char>|
                    #![trigger table_lookup(table_view(table@), name)]
                    table_lookup(table_view(table@), name) == label_target(sv.take(i + 1), name) by {
                    assert(table_lookup(table_view(before), name) == label_target(sv.take(i as int), name));
                }
            }
        }
        i = i + 1;
    }
    assert(sv.take(i as int) =~= sv);
    let mut statements: Vec<Stage3> = Vec::new();
    let mut j: usize = 0;
    while j < input.len()
        invariant
            sv == views2(input@),
            j <= input@.len(),
            forall|name: Seq<char>|
                #![trigger table_lookup(table_view(table@), name)]
                table_lookup(table_view(table@), name) == label_target(sv, name),
            resolve_prefix(sv, j as int) == Ok::<_, PreprocessorErrorView>(statements@),
        decreases input@.len() - j,
    {
        assert(sv[j as int] == input@[j as int]@);
        let s: Stage3 = match &input[j] {
            Stage2::Opcode(opcode) => Stage3::Opcode(*opcode),
            Stage2::Push(b) => Stage3::Push(*b),
            Stage2::GotoLabel(_) => Stage3::Opcode(Opcode::GotoTarget),
            Stage2::UnresolvedGoto(label) => match find_label(&table, label) {
                Some(destination) => Stage3::ResolvedGoto(VarlenBytes::from(destination)),
                None => {
                    proof {
                        lemma_resolve_prefix_error(sv, j + 1, sv.len() as int);
                    }
                    return Err(PreprocessorError::UndeclaredLabel(label.clone()));
                },
            },
            Stage2::UnresolvedConditionalGoto(label) => match find_label(&table, label) {
                Some(destination) => Stage3::ResolvedConditionalGoto(VarlenBytes::from(destination)),
                None => {
                    proof {
                        lemma_resolve_prefix_error(sv, j + 1, sv.len() as int);
                    }
                    return Err(PreprocessorError::UndeclaredLabel(label.clone()));
                },
            },
        };
        statements.push(s);
        j = j + 1;
    }
    Ok(statements)
}

/// Lowering `PUSH v` uses the dedicated zero-width push for `v == 0`; for
/// `v > 0` it keeps the value and takes the smallest width `N` in `1..=8`
/// with `v < 256^N`.
pub proof fn lemma_push_width_minimal(v: u64)
    ensures
        v == 0 ==> lower(Stage1View::Push(v)) == seq![Stage2View::Opcode(Opcode::Push0)],
        v > 0 ==> lower(Stage1View::Push(v)) == seq![Stage2View::Push(narrowest(v))],
        narrowest(v).spec_value() == v,
        narrowest(v).spec_byte_count() == min_width(v),
        1 <= min_width(v) <= 8,
        (v as nat) < pow256(min_width(v)),
        forall|m: nat| 1 <= m < min_width(v) ==> (v as nat) >= #[trigger] pow256(m),
{
    crate::encoding::lemma_min_width_is_smallest(v);
}

proof fn lemma_label_target_unique(s: Seq<Stage2View>, i: int, name: Seq<char>)
    requires
        0 <= i < s.len(),
        s[i] == Stage2View::GotoLabel(name),
        forall|k: int| 0 <= k < s.len() && k != i ==> s[k] != Stage2View::GotoLabel(name),
    ensures
        label_target(s, name) == Some(encoded_len(s.take(i + 1))),
    decreases s.len(),
{
    if i == s.len() - 1 {
        assert(s.take(i + 1) =~= s);
    } else {
        let d = s.drop_last();
        assert(d.take(i + 1) =~= s.take(i + 1));
        lemma_label_target_unique(d, i, name);
    }
}

pub(crate) proof fn lemma_resolve_prefix_ok(s: Seq<Stage2View>, n: int, k: int)
    requires
        0 <= k < n,
        resolve_prefix(s, n) is Ok,
    ensures
        resolve_prefix(s, n)->Ok_0.len() == n,
        resolve(s[k], s) is Ok,
        resolve_prefix(s, n)->Ok_0[k] == resolve(s[k], s)->Ok_0,
    decreases n,
{
    if k < n - 1 {
        lemma_resolve_prefix_ok(s, n - 1, k);
    } else if n > 1 {
        lemma_resolve_prefix_ok(s, n - 1, 0);
    }
}

/// A jump to a declared label resolves to the offset of the byte right after
/// that label's marker in the encoded stream, whether the label comes before
/// or after the jump.
pub proof fn lemma_jump_resolves_after_marker(s: Seq<Stage2View>, i: int, j: int, name: Seq<char>)
    requires
        0 <= i < s.len(),
        0 <= j < s.len(),
        s[i] == Stage2View::GotoLabel(name),
        forall|k: int| 0 <= k < s.len() && k != i ==> s[k] != Stage2View::GotoLabel(name),
        s[j] == Stage2View::UnresolvedGoto(name) || s[j] == Stage2View::UnresolvedConditionalGoto(
            name,
        ),
    ensures
        encoded_len(s.take(i + 1)) == encoded_len(s.take(i)) + 1,
        s[j] is UnresolvedGoto ==> resolve(s[j], s) == Ok::<_, PreprocessorErrorView>(
            Stage3::ResolvedGoto(VarlenBytes::B8(encoded_len(s.take(i + 1)) as u64)),
        ),
        s[j] is UnresolvedConditionalGoto ==> resolve(s[j], s) == Ok::<_, PreprocessorErrorView>(
            Stage3::ResolvedConditionalGoto(VarlenBytes::B8(encoded_len(s.take(i + 1)) as u64)),
        ),
        resolve_all(s) is Ok ==> resolve_all(s)->Ok_0[j] == resolve(s[j], s)->Ok_0,
{
    assert(s.take(i + 1).drop_last() =~= s.take(i));
    lemma_label_target_unique(s, i, name);
    if resolve_all(s) is Ok {
        lemma_resolve_prefix_ok(s, s.len() as int, j);
    }
}

} // verus!
