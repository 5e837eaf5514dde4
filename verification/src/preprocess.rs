//! The preprocessor.
//!
//! It works on tokens: it copies them from the input to the output,
//! replaces the use of a macro by the macro's body, and obeys the
//! directives `#define` and `#include`.
//!
//! The input of each file is read in a frame of its own. The frames of the
//! files that are being included form a stack; the macros are shared by
//! them all. Reading and lexing an included file is not done here: where
//! the input asks for a file, [`preprocess`] returns to its caller, which
//! preprocesses that file into the same context and hands the tokens to
//! [`resume`].

use vstd::prelude::*;
use vstd::string::StringExecFns;
use crate::error::Error;
use crate::error::ErrorKind;
use crate::error::ErrorView;
use crate::macros::clone_tokens;
use crate::macros::lemma_tokens_view_push;
use crate::macros::strings_view;
use crate::macros::tokens_view;
use crate::macros::Macro;
use crate::macros::MacroTable;
use crate::macros::MacroType;
use crate::macros::MacroTypeView;
use crate::macros::MacroView;
use crate::token::Token;
use crate::token::TokenType;
use crate::token::TokenView;

verus! {

/// One frame of input: the tokens of a file, how far they have been
/// read, and what they have given so far.
#[derive(Debug, PartialEq, Eq)]
pub struct Preprocess {
    pub input: Vec<Token>,
    pub output: Vec<Token>,
    pub pos: usize,
}

/// The mathematical value of a [`Preprocess`].
pub ghost struct PreprocessView {
    pub input: Seq<TokenView>,
    pub output: Seq<TokenView>,
    pub pos: usize,
}

impl View for Preprocess {
    type V = PreprocessView;

    open spec fn view(&self) -> PreprocessView {
        PreprocessView {
            input: tokens_view(self.input@),
            output: tokens_view(self.output@),
            pos: self.pos,
        }
    }
}

impl Preprocess {
    /// A frame that has read nothing of `input` yet.
    pub fn new(input: Vec<Token>) -> (p: Preprocess)
        ensures
            p.input == input,
            p.output@ == Seq::<Token>::empty(),
            p.pos == 0,
    {
        Preprocess { input, output: Vec::new(), pos: 0 }
    }
}

impl Clone for Preprocess {
    fn clone(&self) -> (p: Self)
        ensures
            p@ == self@,
            p.pos == self.pos,
            p.input@ == self.input@,
            p.output@ == self.output@,
    {
        Preprocess {
            input: clone_tokens(&self.input),
            output: clone_tokens(&self.output),
            pos: self.pos,
        }
    }
}

impl Default for Preprocess {
    fn default() -> (p: Preprocess)
        ensures
            p.input@ == Seq::<Token>::empty(),
            p.output@ == Seq::<Token>::empty(),
            p.pos == 0,
    {
        Preprocess { input: Vec::new(), output: Vec::new(), pos: 0 }
    }
}

/// The frames of a stack, as mathematical values.
pub open spec fn frames_view(frames: Seq<Preprocess>) -> Seq<PreprocessView> {
    Seq::new(frames.len(), |i: int| frames[i]@)
}

/// The state of the preprocessor: the macros, the frame that is being
/// read, and the frames that wait for it, innermost last.
#[derive(Debug, PartialEq, Eq)]
pub struct Context {
    pub macros: MacroTable,
    pub preprocess: Preprocess,
    pub stack: Vec<Preprocess>,
}

/// The mathematical value of a [`Context`].
pub ghost struct ContextView {
    pub macros: Map<Seq<char>, MacroView>,
    pub preprocess: PreprocessView,
    pub stack: Seq<PreprocessView>,
}

impl View for Context {
    type V = ContextView;

    open spec fn view(&self) -> ContextView {
        ContextView {
            macros: self.macros@,
            preprocess: self.preprocess@,
            stack: frames_view(self.stack@),
        }
    }
}

impl ContextView {
    /// This state with the active frame read up to `pos`.
    pub open spec fn at(self, pos: int) -> ContextView {
        ContextView {
            preprocess: PreprocessView { pos: pos as usize, ..self.preprocess },
            ..self
        }
    }

    /// This state with `tokens` added to the output of the active frame.
    pub open spec fn emit(self, tokens: Seq<TokenView>) -> ContextView {
        ContextView {
            preprocess: PreprocessView {
                output: self.preprocess.output + tokens,
                ..self.preprocess
            },
            ..self
        }
    }

    /// The tokens of the active frame.
    pub open spec fn input(self) -> Seq<TokenView> {
        self.preprocess.input
    }

    /// How far the active frame has been read.
    pub open spec fn pos(self) -> int {
        self.preprocess.pos as int
    }
}

/// Where the line that holds position `pos` ends: the position of the
/// first end-of-line token at or after `pos`, or the end of the input.
pub open spec fn line_end(input: Seq<TokenView>, pos: int) -> int
    decreases input.len() - pos,
{
    if pos < 0 || pos >= input.len() {
        input.len() as int
    } else if input[pos].ty == TokenType::NewLine {
        pos
    } else {
        line_end(input, pos + 1)
    }
}

/// Where the line after the one that holds `pos` begins.
pub open spec fn next_line(input: Seq<TokenView>, pos: int) -> int {
    if line_end(input, pos) < input.len() {
        line_end(input, pos) + 1
    } else {
        input.len() as int
    }
}

/// The end of the line lies between `pos` and the end of the input, no
/// token before it ends a line, and it is the end of the input or an
/// end-of-line token.
pub proof fn lemma_line_end(input: Seq<TokenView>, pos: int)
    requires
        0 <= pos <= input.len(),
    ensures
        pos <= line_end(input, pos) <= input.len(),
        forall|i: int| pos <= i < line_end(input, pos) ==> (#[trigger] input[i]).ty != TokenType::NewLine,
        line_end(input, pos) < input.len() ==> input[line_end(input, pos)].ty == TokenType::NewLine,
    decreases input.len() - pos,
{
    if pos < input.len() && input[pos].ty != TokenType::NewLine {
        lemma_line_end(input, pos + 1);
    }
}

impl Context {
    /// No frame has been read beyond its end.
    pub open spec fn wf(&self) -> bool {
        &&& self.preprocess.pos <= self.preprocess.input.len()
        &&& forall|i: int|
            0 <= i < self.stack.len() ==> (#[trigger] self.stack[i]).pos <= self.stack[i].input.len()
    }

    /// Whether no frame has been read beyond its end.
    pub fn is_wf(&self) -> (b: bool)
        ensures
            b == self.wf(),
    {
        if self.preprocess.pos > self.preprocess.input.len() {
            return false;
        }
        let mut i: usize = 0;
        while i < self.stack.len()
            invariant
                i <= self.stack.len(),
                forall|j: int| 0 <= j < i ==> (#[trigger] self.stack[j]).pos <= self.stack[j].input.len(),
            decreases self.stack.len() - i,
        {
            if self.stack[i].pos > self.stack[i].input.len() {
                return false;
            }
            i += 1;
        }
        true
    }

    /// A context with no macros and an empty frame.
    pub fn new() -> (ctx: Context)
        ensures
            ctx.wf(),
            ctx@.macros == Map::<Seq<char>, MacroView>::empty(),
            ctx@.preprocess == (PreprocessView { input: Seq::empty(), output: Seq::empty(), pos: 0 }),
            ctx@.stack == Seq::<PreprocessView>::empty(),
    {
        let ctx = Context {
            macros: MacroTable::new(),
            preprocess: Preprocess::new(Vec::new()),
            stack: Vec::new(),
        };
        proof {
            assert(tokens_view(ctx.preprocess.input@) =~= Seq::<TokenView>::empty());
            assert(tokens_view(ctx.preprocess.output@) =~= Seq::<TokenView>::empty());
            assert(frames_view(ctx.stack@) =~= Seq::<PreprocessView>::empty());
        }
        ctx
    }

    /// Suspends the active frame and starts one that reads `input`.
    pub fn new_preprocess(&mut self, input: Vec<Token>)
        requires
            old(self).wf(),
        ensures
            final(self).wf(),
            final(self)@ == (ContextView {
                macros: old(self)@.macros,
                preprocess: PreprocessView {
                    input: tokens_view(input@),
                    output: Seq::empty(),
                    pos: 0,
                },
                stack: old(self)@.stack.push(old(self)@.preprocess),
            }),
    {
        let mut frame = Preprocess::new(input);
        core::mem::swap(&mut self.preprocess, &mut frame);
        proof {
            assert(frames_view(self.stack@.push(frame)) =~= frames_view(self.stack@).push(frame@));
            assert(tokens_view(self.preprocess.output@) =~= Seq::<TokenView>::empty());
        }
        self.stack.push(frame);
    }

    /// Whether the active frame is read to its end.
    pub fn eof(&self) -> (b: bool)
        ensures
            b == (self@.pos() == self@.input().len()),
    {
        self.preprocess.pos == self.preprocess.input.len()
    }

    /// The next token, without reading it.
    pub fn peek(&self) -> (r: Option<&Token>)
        ensures
            match r {
                Some(t) => self@.pos() < self@.input().len() && t@ == self@.input()[self@.pos()],
                None => self@.pos() >= self@.input().len(),
            },
    {
        if self.preprocess.pos < self.preprocess.input.len() {
            Some(&self.preprocess.input[self.preprocess.pos])
        } else {
            None
        }
    }

    /// Reads the next token.
    pub fn next(&mut self) -> (r: Option<Token>)
        requires
            old(self).wf(),
        ensures
            final(self).wf(),
            match r {
                Some(t) => old(self)@.pos() < old(self)@.input().len() && t@ == old(self)@.input()[old(
                    self,
                )@.pos()] && final(self)@ == old(self)@.at(old(self)@.pos() + 1),
                None => old(self)@.pos() == old(self)@.input().len() && final(self)@ == old(self)@,
            },
    {
        if self.eof() {
            return None;
        }
        let t = self.preprocess.input[self.preprocess.pos].clone();
        self.preprocess.pos += 1;
        Some(t)
    }

    /// Reads the next token, which has to be of kind `ty`.
    pub fn get(&mut self, ty: TokenType) -> (r: Result<Token, Error>)
        requires
            old(self).wf(),
        ensures
            final(self).wf(),
            match get_spec(old(self)@.input(), old(self)@.pos(), ty) {
                Ok(t) => r matches Ok(rt) && rt@ == t && final(self)@ == old(self)@.at(
                    old(self)@.pos() + 1,
                ),
                Err(e) => r matches Err(re) && re@ == e,
            },
    {
        match self.next() {
            None => Err(Error::bare(ErrorKind::UnexpectedEof)),
            Some(t) => {
                if t.ty != ty {
                    return Err(Error::at(ErrorKind::UnexpectedToken, &t));
                }
                Ok(t)
            },
        }
    }

    /// Reads the next token, which has to be an identifier or a string,
    /// and returns what it spells.
    pub fn ident(&mut self) -> (r: Result<String, Error>)
        requires
            old(self).wf(),
        ensures
            final(self).wf(),
            match ident_spec(old(self)@.input(), old(self)@.pos()) {
                Ok(s) => r matches Ok(rs) && rs@ == s && final(self)@ == old(self)@.at(
                    old(self)@.pos() + 1,
                ),
                Err(e) => r matches Err(re) && re@ == e,
            },
    {
        match self.next() {
            None => Err(Error::bare(ErrorKind::UnexpectedEof)),
            Some(t) => {
                if t.ty == TokenType::Ident || t.ty == TokenType::Str {
                    Ok(t.name)
                } else {
                    Err(Error::at(ErrorKind::UnexpectedToken, &t))
                }
            },
        }
    }

    /// Reads the next token if it is of kind `ty`; says whether it did.
    pub fn consume(&mut self, ty: TokenType) -> (b: bool)
        requires
            old(self).wf(),
        ensures
            final(self).wf(),
            b == next_is(old(self)@.input(), old(self)@.pos(), ty),
            b ==> final(self)@ == old(self)@.at(old(self)@.pos() + 1),
            !b ==> final(self)@ == old(self)@,
    {
        if self.preprocess.pos < self.preprocess.input.len() && self.preprocess.input[self.preprocess.pos].ty
            == ty {
            self.preprocess.pos += 1;
            true
        } else {
            false
        }
    }

    /// Reads the rest of the line: returns its tokens and goes on to the
    /// start of the next line.
    pub fn read_until_eol(&mut self) -> (v: Vec<Token>)
        requires
            old(self).wf(),
        ensures
            final(self).wf(),
            tokens_view(v@) == old(self)@.input().subrange(
                old(self)@.pos(),
                line_end(old(self)@.input(), old(self)@.pos()),
            ),
            final(self)@ == old(self)@.at(next_line(old(self)@.input(), old(self)@.pos())),
    {
        let ghost input = self@.input();
        let ghost start = self@.pos();
        let mut v: Vec<Token> = Vec::new();
        proof {
            assert(tokens_view(v@) =~= input.subrange(start, start));
        }
        while self.preprocess.pos < self.preprocess.input.len() && self.preprocess.input[self.preprocess.pos].ty
            != TokenType::NewLine
            invariant
                self.wf(),
                0 <= start <= self@.pos(),
                start == old(self)@.pos(),
                self@ == old(self)@.at(self@.pos()),
                input == old(self)@.input(),
                input == tokens_view(self.preprocess.input@),
                line_end(input, start) == line_end(input, self@.pos()),
                tokens_view(v@) == input.subrange(start, self@.pos()),
            decreases self.preprocess.input.len() - self.preprocess.pos,
        {
            let t = self.preprocess.input[self.preprocess.pos].clone();
            proof {
                lemma_tokens_view_push(v@, t);
                assert(input.subrange(start, self@.pos()).push(t@) =~= input.subrange(
                    start,
                    self@.pos() + 1,
                ));
            }
            v.push(t);
            self.preprocess.pos += 1;
        }
        if self.preprocess.pos < self.preprocess.input.len() {
            self.preprocess.pos += 1;
        }
        v
    }

    /// Adds `t` to the output of the active frame.
    pub fn emit(&mut self, t: Token)
        ensures
            final(self)@ == old(self)@.emit(seq![t@]),
            old(self).wf() ==> final(self).wf(),
    {
        proof {
            lemma_tokens_view_push(self.preprocess.output@, t);
            assert(tokens_view(self.preprocess.output@).push(t@) =~= tokens_view(
                self.preprocess.output@,
            ) + seq![t@]);
        }
        self.preprocess.output.push(t);
    }

    /// Adds copies of `tokens` to the output of the active frame.
    pub fn emit_all(&mut self, tokens: &Vec<Token>)
        ensures
            final(self)@ == old(self)@.emit(tokens_view(tokens@)),
            old(self).wf() ==> final(self).wf(),
    {
        let mut i: usize = 0;
        proof {
            assert(self@.preprocess.output =~= old(self)@.preprocess.output + tokens_view(
                tokens@,
            ).take(0));
        }
        while i < tokens.len()
            invariant
                i <= tokens.len(),
                old(self).wf() ==> self.wf(),
                self@ == old(self)@.emit(tokens_view(tokens@).take(i as int)),
            decreases tokens.len() - i,
        {
            let t = tokens[i].clone();
            proof {
                lemma_tokens_view_push(self.preprocess.output@, t);
                assert(old(self)@.preprocess.output + tokens_view(tokens@).take(i as int + 1)
                    =~= (old(self)@.preprocess.output + tokens_view(tokens@).take(i as int)).push(
                    t@,
                ));
            }
            self.preprocess.output.push(t);
            i += 1;
        }
        proof {
            assert(tokens_view(tokens@).take(tokens.len() as int) == tokens_view(tokens@));
        }
    }
}

/// Whether the token at `pos` exists and is of kind `ty`.
pub open spec fn next_is(input: Seq<TokenView>, pos: int, ty: TokenType) -> bool {
    0 <= pos < input.len() && input[pos].ty == ty
}

/// The token at `pos`, which has to be of kind `ty`.
pub open spec fn get_spec(input: Seq<TokenView>, pos: int, ty: TokenType) -> Result<
    TokenView,
    ErrorView,
> {
    if !(0 <= pos < input.len()) {
        Err(ErrorView::bare(ErrorKind::UnexpectedEof))
    } else if input[pos].ty != ty {
        Err(ErrorView::at(ErrorKind::UnexpectedToken, input[pos]))
    } else {
        Ok(input[pos])
    }
}

/// What the token at `pos` spells; it has to be an identifier or a string.
pub open spec fn ident_spec(input: Seq<TokenView>, pos: int) -> Result<Seq<char>, ErrorView> {
    if !(0 <= pos < input.len()) {
        Err(ErrorView::bare(ErrorKind::UnexpectedEof))
    } else if input[pos].ty == TokenType::Ident || input[pos].ty == TokenType::Str {
        Ok(input[pos].name)
    } else {
        Err(ErrorView::at(ErrorKind::UnexpectedToken, input[pos]))
    }
}

/// The position of the parameter called `name`; where a name is listed
/// twice, the later position.
pub open spec fn param_index(params: Seq<Seq<char>>, name: Seq<char>) -> Option<int>
    decreases params.len(),
{
    if params.len() == 0 {
        None
    } else if params.last() == name {
        Some(params.len() - 1)
    } else {
        param_index(params.drop_last(), name)
    }
}

/// The body token `t`, or the placeholder that takes its place where `t`
/// is the name of a parameter.
pub open spec fn subst_param(t: TokenView, params: Seq<Seq<char>>) -> TokenView {
    if t.ty == TokenType::Ident {
        match param_index(params, t.name) {
            Some(i) => t.synthesized(TokenType::Param, i as usize, t.name),
            None => t,
        }
    } else {
        t
    }
}

/// The body `tokens` with every use of a parameter replaced by its
/// placeholder.
pub open spec fn subst_params(tokens: Seq<TokenView>, params: Seq<Seq<char>>) -> Seq<TokenView> {
    Seq::new(tokens.len(), |i: int| subst_param(tokens[i], params))
}

/// The body `tokens` with every `#` that is followed by a token taken
/// out, and that token marked for stringizing. A `#` at the end stays.
pub open spec fn mark_stringize(tokens: Seq<TokenView>) -> Seq<TokenView>
    decreases tokens.len(),
{
    if tokens.len() == 0 {
        Seq::empty()
    } else if tokens[0].ty == TokenType::HashMark && tokens.len() >= 2 {
        seq![TokenView { stringize: true, ..tokens[1] }] + mark_stringize(tokens.skip(2))
    } else {
        seq![tokens[0]] + mark_stringize(tokens.skip(1))
    }
}

/// The body of a function-like macro as it is stored: parameters are
/// placeholders, and `#` marks the token after it.
pub open spec fn replace_params_spec(tokens: Seq<TokenView>, params: Seq<Seq<char>>) -> Seq<
    TokenView,
> {
    mark_stringize(subst_params(tokens, params))
}

/// Where the macro argument that is being read at `pos`, `level`
/// parentheses deep, ends: the position of the first `,` or `)` that is
/// not inside parentheses of the argument. `None` where the input ends
/// before that.
pub open spec fn arg_end(input: Seq<TokenView>, pos: int, level: nat) -> Option<int>
    decreases input.len() - pos,
{
    if pos < 0 || pos >= input.len() {
        None
    } else if level == 0 && (input[pos].ty == TokenType::RightParen || input[pos].ty
        == TokenType::Comma) {
        Some(pos)
    } else if input[pos].ty == TokenType::LeftParen {
        arg_end(input, pos + 1, level + 1)
    } else if input[pos].ty == TokenType::RightParen {
        arg_end(input, pos + 1, (level - 1) as nat)
    } else {
        arg_end(input, pos + 1, level)
    }
}

/// An argument ends at or after the place where it starts, on a `,` or `)`.
pub proof fn lemma_arg_end(input: Seq<TokenView>, pos: int, level: nat)
    ensures
        arg_end(input, pos, level) matches Some(e) ==> pos <= e < input.len() && 0 <= pos && (
        input[e].ty == TokenType::RightParen || input[e].ty == TokenType::Comma),
    decreases input.len() - pos,
{
    if pos < 0 || pos >= input.len() {
    } else if level == 0 && (input[pos].ty == TokenType::RightParen || input[pos].ty
        == TokenType::Comma) {
    } else if input[pos].ty == TokenType::LeftParen {
        lemma_arg_end(input, pos + 1, level + 1);
    } else if input[pos].ty == TokenType::RightParen {
        lemma_arg_end(input, pos + 1, (level - 1) as nat);
    } else {
        lemma_arg_end(input, pos + 1, level);
    }
}

/// The macro argument that starts at `pos`, and where it ends.
pub open spec fn read_one_arg_spec(input: Seq<TokenView>, pos: int) -> Result<
    (Seq<TokenView>, int),
    ErrorView,
> {
    match arg_end(input, pos, 0) {
        Some(end) => Ok((input.subrange(pos, end), end)),
        None => if 0 <= pos < input.len() {
            Err(ErrorView::at(ErrorKind::UnclosedArgument, input[pos]))
        } else {
            Err(ErrorView::bare(ErrorKind::UnclosedArgument))
        },
    }
}

/// The arguments of a macro call from the one that starts at `pos` on,
/// added to `args`, and the position after the closing parenthesis.
pub open spec fn more_args_spec(input: Seq<TokenView>, pos: int, args: Seq<Seq<TokenView>>) -> Result<
    (Seq<Seq<TokenView>>, int),
    ErrorView,
>
    decreases input.len() - pos,
{
    match read_one_arg_spec(input, pos) {
        Err(err) => Err(err),
        Ok((arg, end)) => {
            proof {
                lemma_arg_end(input, pos, 0);
            }
            if input[end].ty == TokenType::RightParen {
                Ok((args.push(arg), end + 1))
            } else {
                more_args_spec(input, end + 1, args.push(arg))
            }
        },
    }
}

/// The arguments of a macro call whose opening parenthesis is just
/// before `pos`, and the position after the closing parenthesis. `()`
/// holds no argument.
pub open spec fn read_args_spec(input: Seq<TokenView>, pos: int) -> Result<
    (Seq<Seq<TokenView>>, int),
    ErrorView,
> {
    if next_is(input, pos, TokenType::RightParen) {
        Ok((Seq::empty(), pos + 1))
    } else {
        more_args_spec(input, pos, Seq::empty())
    }
}

/// The texts of `tokens`, with one space between every two of them.
pub open spec fn join_text(tokens: Seq<TokenView>) -> Seq<char>
    decreases tokens.len(),
{
    if tokens.len() == 0 {
        Seq::empty()
    } else if tokens.len() == 1 {
        tokens[0].text
    } else {
        join_text(tokens.drop_last()) + seq![' '] + tokens.last().text
    }
}

/// The string token that stands for the argument `tokens`, at the place
/// of the placeholder `at`.
pub open spec fn stringize_spec(tokens: Seq<TokenView>, at: TokenView) -> TokenView {
    at.synthesized(
        TokenType::Str,
        vstd::utf8::encode_utf8(join_text(tokens)).len() as usize,
        join_text(tokens),
    )
}

/// The name of the macro that stands for the line it is used on.
pub open spec fn line_macro() -> Seq<char> {
    seq!['_', '_', 'L', 'I', 'N', 'E', '_', '_']
}

/// What the body token `t` of a macro used at `start` becomes where it
/// is `__LINE__`: a number token that holds the line of `start`.
pub open spec fn special_macro(t: TokenView, start: TokenView) -> Option<TokenView> {
    if t.is_ident(line_macro()) {
        Some(start.synthesized(TokenType::Num, start.line, Seq::empty()))
    } else {
        None
    }
}

/// What the body of an object-like macro used at `start` gives: the body,
/// token for token, with `__LINE__` replaced by the line of `start`.
pub open spec fn expand_objlike(body: Seq<TokenView>, start: TokenView) -> Seq<TokenView> {
    Seq::new(
        body.len(),
        |i: int|
            match special_macro(body[i], start) {
                Some(n) => n,
                None => body[i],
            },
    )
}

/// What one body token of a function-like macro gives when the macro is
/// called at `start` with `args`: a placeholder gives its argument, as it
/// stands or as one string; any other token gives itself.
pub open spec fn expand_token(t: TokenView, args: Seq<Seq<TokenView>>, start: TokenView) -> Result<
    Seq<TokenView>,
    ErrorView,
> {
    match special_macro(t, start) {
        Some(n) => Ok(seq![n]),
        None => if t.ty == TokenType::Param {
            if t.val >= args.len() {
                Err(ErrorView::at(ErrorKind::UnexpectedToken, t))
            } else if t.stringize {
                Ok(seq![stringize_spec(args[t.val as int], t)])
            } else {
                Ok(args[t.val as int])
            }
        } else {
            Ok(seq![t])
        },
    }
}

/// What the body of a function-like macro gives when the macro is called
/// at `start` with `args`.
pub open spec fn expand_funclike(
    body: Seq<TokenView>,
    args: Seq<Seq<TokenView>>,
    start: TokenView,
) -> Result<Seq<TokenView>, ErrorView>
    decreases body.len(),
{
    if body.len() == 0 {
        Ok(Seq::empty())
    } else {
        match expand_funclike(body.drop_last(), args, start) {
            Err(err) => Err(err),
            Ok(done) => match expand_token(body.last(), args, start) {
                Err(err) => Err(err),
                Ok(tokens) => Ok(done + tokens),
            },
        }
    }
}

/// What the use of the macro `m` at the token `start` gives, and where
/// reading goes on; `pos` is the position after `start`.
///
/// A function-like macro must be followed by its arguments in
/// parentheses, as many as it has parameters.
pub open spec fn apply_spec(m: MacroView, start: TokenView, input: Seq<TokenView>, pos: int) -> Result<
    (Seq<TokenView>, int),
    ErrorView,
> {
    match m.ty {
        MacroTypeView::Objlike => Ok((expand_objlike(m.tokens, start), pos)),
        MacroTypeView::Funclike(params) => match get_spec(input, pos, TokenType::LeftParen) {
            Err(err) => Err(err),
            Ok(_) => match read_args_spec(input, pos + 1) {
                Err(err) => Err(err),
                Ok((args, after)) => if params.len() != args.len() {
                    Err(ErrorView::at(ErrorKind::ParamCountMismatch, start))
                } else {
                    match expand_funclike(m.tokens, args, start) {
                        Err(err) => Err(err),
                        Ok(tokens) => Ok((tokens, after)),
                    }
                },
            },
        },
    }
}

/// The parameter names of a macro definition from the position `pos`
/// after a name on, added to `params`, and the position after the closing
/// parenthesis.
pub open spec fn more_params_spec(input: Seq<TokenView>, pos: int, params: Seq<Seq<char>>) -> Result<
    (Seq<Seq<char>>, int),
    ErrorView,
>
    decreases input.len() - pos,
{
    if next_is(input, pos, TokenType::RightParen) {
        Ok((params, pos + 1))
    } else {
        match get_spec(input, pos, TokenType::Comma) {
            Err(err) => Err(err),
            Ok(_) => match ident_spec(input, pos + 1) {
                Err(err) => Err(err),
                Ok(name) => more_params_spec(input, pos + 2, params.push(name)),
            },
        }
    }
}

/// The parameter names of a macro definition whose opening parenthesis
/// is just before `pos`: at least one name, and a comma between every two.
pub open spec fn params_spec(input: Seq<TokenView>, pos: int) -> Result<
    (Seq<Seq<char>>, int),
    ErrorView,
> {
    match ident_spec(input, pos) {
        Err(err) => Err(err),
        Ok(name) => more_params_spec(input, pos + 1, seq![name]),
    }
}

/// What `#define` does, read from the position `pos` after the word
/// `define`: the macros with the new one, and where the next line starts.
///
/// The name is followed by the parameters in parentheses, for a
/// function-like macro, and by the body, which is the rest of the line.
pub open spec fn define_spec(
    macros: Map<Seq<char>, MacroView>,
    input: Seq<TokenView>,
    pos: int,
) -> Result<(Map<Seq<char>, MacroView>, int), ErrorView> {
    match ident_spec(input, pos) {
        Err(err) => Err(err),
        Ok(name) => if next_is(input, pos + 1, TokenType::LeftParen) {
            match params_spec(input, pos + 2) {
                Err(err) => Err(err),
                Ok((params, body)) => Ok(
                    (
                        macros.insert(
                            name,
                            MacroView {
                                ty: MacroTypeView::Funclike(params),
                                tokens: replace_params_spec(
                                    input.subrange(body, line_end(input, body)),
                                    params,
                                ),
                            },
                        ),
                        next_line(input, body),
                    ),
                ),
            }
        } else {
            Ok(
                (
                    macros.insert(
                        name,
                        MacroView {
                            ty: MacroTypeView::Objlike,
                            tokens: input.subrange(pos + 1, line_end(input, pos + 1)),
                        },
                    ),
                    next_line(input, pos + 1),
                ),
            )
        },
    }
}

/// What `#include` asks for, read from the position `pos` after the word
/// `include`: the path, which must be the last token of its line, and
/// where the next line starts.
pub open spec fn include_spec(input: Seq<TokenView>, pos: int) -> Result<(Seq<char>, int), ErrorView> {
    match ident_spec(input, pos) {
        Err(err) => Err(err),
        Ok(path) => match get_spec(input, pos + 1, TokenType::NewLine) {
            Err(err) => Err(err),
            Ok(_) => Ok((path, pos + 2)),
        },
    }
}

/// The word `define`.
pub open spec fn define_word() -> Seq<char> {
    seq!['d', 'e', 'f', 'i', 'n', 'e']
}

/// The word `include`.
pub open spec fn include_word() -> Seq<char> {
    seq!['i', 'n', 'c', 'l', 'u', 'd', 'e']
}

/// How reading a frame ends.
pub ghost enum RunView {
    /// The input is read to its end; `output` is what it gave.
    Done { macros: Map<Seq<char>, MacroView>, output: Seq<TokenView> },
    /// The input asks for the file `path`; reading goes on at `pos` once
    /// the tokens of that file have been added to `output`.
    Include { macros: Map<Seq<char>, MacroView>, pos: int, output: Seq<TokenView>, path: Seq<char> },
    /// The input is in error.
    Failed(ErrorView),
}

/// A macro use reads at least nothing and at most the rest of the input.
pub proof fn lemma_apply_advances(m: MacroView, start: TokenView, input: Seq<TokenView>, pos: int)
    requires
        0 <= pos <= input.len(),
    ensures
        apply_spec(m, start, input, pos) matches Ok((_, after)) ==> pos <= after <= input.len(),
{
    match m.ty {
        MacroTypeView::Objlike => {},
        MacroTypeView::Funclike(_) => {
            if get_spec(input, pos, TokenType::LeftParen) is Ok {
                lemma_read_args_advances(input, pos + 1);
            }
        },
    }
}

/// The arguments of a call end within the input.
pub proof fn lemma_read_args_advances(input: Seq<TokenView>, pos: int)
    requires
        0 <= pos <= input.len(),
    ensures
        read_args_spec(input, pos) matches Ok((_, after)) ==> pos < after <= input.len(),
{
    if !next_is(input, pos, TokenType::RightParen) {
        lemma_more_args_advances(input, pos, Seq::empty());
    }
}

/// The arguments of a call end within the input.
pub proof fn lemma_more_args_advances(input: Seq<TokenView>, pos: int, args: Seq<Seq<TokenView>>)
    requires
        0 <= pos <= input.len(),
    ensures
        more_args_spec(input, pos, args) matches Ok((_, after)) ==> pos < after <= input.len(),
    decreases input.len() - pos,
{
    lemma_arg_end(input, pos, 0);
    match read_one_arg_spec(input, pos) {
        Err(_) => {},
        Ok((arg, end)) => {
            if input[end].ty != TokenType::RightParen {
                lemma_more_args_advances(input, end + 1, args.push(arg));
            }
        },
    }
}

/// The parameter list of a definition ends within the input.
pub proof fn lemma_more_params_advances(input: Seq<TokenView>, pos: int, params: Seq<Seq<char>>)
    requires
        0 <= pos <= input.len(),
    ensures
        more_params_spec(input, pos, params) matches Ok((_, after)) ==> pos < after <= input.len(),
    decreases input.len() - pos,
{
    if !next_is(input, pos, TokenType::RightParen) {
        if get_spec(input, pos, TokenType::Comma) is Ok && ident_spec(input, pos + 1) is Ok {
            lemma_more_params_advances(input, pos + 2, params.push(ident_spec(input, pos + 1)->Ok_0));
        }
    }
}

/// A definition ends within the input, after the place where it starts.
pub proof fn lemma_define_advances(macros: Map<Seq<char>, MacroView>, input: Seq<TokenView>, pos: int)
    requires
        0 <= pos <= input.len(),
    ensures
        define_spec(macros, input, pos) matches Ok((_, after)) ==> pos < after <= input.len(),
{
    if ident_spec(input, pos) is Ok {
        if next_is(input, pos + 1, TokenType::LeftParen) {
            if ident_spec(input, pos + 2) is Ok {
                lemma_more_params_advances(input, pos + 3, seq![ident_spec(input, pos + 2)->Ok_0]);
                match params_spec(input, pos + 2) {
                    Ok((_, body)) => {
                        lemma_line_end(input, body);
                    },
                    Err(_) => {},
                }
            }
        } else {
            lemma_line_end(input, pos + 1);
        }
    }
}

/// What reading the input from `pos` on gives, with `macros` defined and
/// `output` given so far.
///
/// A token that is neither the name of a macro nor `#` is copied. The
/// name of a macro is replaced by what the macro gives. `#` starts a
/// directive: `define` or `include`.
pub open spec fn run_spec(
    macros: Map<Seq<char>, MacroView>,
    input: Seq<TokenView>,
    pos: int,
    output: Seq<TokenView>,
) -> RunView
    decreases input.len() - pos,
{
    if pos < 0 || pos >= input.len() {
        RunView::Done { macros, output }
    } else {
        let t = input[pos];
        if t.ty == TokenType::Ident {
            if macros.contains_key(t.name) {
                match apply_spec(macros[t.name], t, input, pos + 1) {
                    Err(err) => RunView::Failed(err),
                    Ok((tokens, after)) => {
                        proof {
                            lemma_apply_advances(macros[t.name], t, input, pos + 1);
                        }
                        run_spec(macros, input, after, output + tokens)
                    },
                }
            } else {
                run_spec(macros, input, pos + 1, output.push(t))
            }
        } else if t.ty != TokenType::HashMark {
            run_spec(macros, input, pos + 1, output.push(t))
        } else {
            match ident_spec(input, pos + 1) {
                Err(err) => RunView::Failed(err),
                Ok(word) => if word == define_word() {
                    match define_spec(macros, input, pos + 2) {
                        Err(err) => RunView::Failed(err),
                        Ok((defined, after)) => {
                            proof {
                                lemma_define_advances(macros, input, pos + 2);
                            }
                            run_spec(defined, input, after, output)
                        },
                    }
                } else if word == include_word() {
                    match include_spec(input, pos + 2) {
                        Err(err) => RunView::Failed(err),
                        Ok((path, after)) => RunView::Include { macros, pos: after, output, path },
                    }
                } else {
                    RunView::Failed(ErrorView::at(ErrorKind::UnknownDirective, t))
                },
            }
        }
    }
}

/// The arguments of a call, as mathematical values.
pub open spec fn args_view(args: Seq<Vec<Token>>) -> Seq<Seq<TokenView>> {
    Seq::new(args.len(), |i: int| tokens_view(args[i]@))
}

/// Adding tokens to the output in two steps is adding them in one.
pub proof fn lemma_emit_emit(ctx: ContextView, a: Seq<TokenView>, b: Seq<TokenView>)
    ensures
        ctx.emit(a).emit(b) == ctx.emit(a + b),
        ctx.emit(Seq::empty()) == ctx,
{
    assert((ctx.preprocess.output + a) + b =~= ctx.preprocess.output + (a + b));
    assert(ctx.preprocess.output + Seq::<TokenView>::empty() =~= ctx.preprocess.output);
}

/// Whether `t` is the identifier spelled `s`.
pub fn is_ident(t: &Token, s: &str) -> (b: bool)
    ensures
        b == t@.is_ident(s@),
{
    t.is_ident(s)
}

/// The position of the parameter called `name`.
fn find_param(params: &Vec<String>, name: &String) -> (r: Option<usize>)
    ensures
        match param_index(strings_view(params@), name@) {
            Some(i) => r == Some(i as usize) && i < params.len(),
            None => r is None,
        },
{
    let ghost all = strings_view(params@);
    let mut k: usize = params.len();
    proof {
        assert(all.take(k as int) == all);
    }
    while k > 0
        invariant
            k <= params.len(),
            all == strings_view(params@),
            param_index(all, name@) == param_index(all.take(k as int), name@),
        decreases k,
    {
        k -= 1;
        proof {
            assert(all.take(k as int + 1).drop_last() == all.take(k as int));
        }
        if params[k] == *name {
            return Some(k);
        }
    }
    proof {
        assert(all.take(0).len() == 0);
    }
    None
}

/// Replaces every use of a parameter in `tokens` by its placeholder.
fn subst_all(tokens: &Vec<Token>, params: &Vec<String>) -> (v: Vec<Token>)
    ensures
        tokens_view(v@) == subst_params(tokens_view(tokens@), strings_view(params@)),
{
    let mut v: Vec<Token> = Vec::new();
    let mut i: usize = 0;
    while i < tokens.len()
        invariant
            i <= tokens.len(),
            v.len() == i,
            forall|j: int|
                0 <= j < i ==> (#[trigger] v[j])@ == subst_param(tokens[j]@, strings_view(params@)),
        decreases tokens.len() - i,
    {
        let t = &tokens[i];
        let found = if t.ty == TokenType::Ident {
            find_param(params, &t.name)
        } else {
            None
        };
        match found {
            Some(n) => v.push(t.synthesized(TokenType::Param, n, t.name.clone())),
            None => v.push(t.clone()),
        }
        i += 1;
    }
    proof {
        assert(tokens_view(v@) =~= subst_params(tokens_view(tokens@), strings_view(params@)));
    }
    v
}

/// Takes out every `#` that is followed by a token, and marks that token.
fn mark_all(tokens: &Vec<Token>) -> (v: Vec<Token>)
    ensures
        tokens_view(v@) == mark_stringize(tokens_view(tokens@)),
{
    let ghost all = tokens_view(tokens@);
    let mut v: Vec<Token> = Vec::new();
    let mut i: usize = 0;
    proof {
        assert(all.skip(0) == all);
        assert(tokens_view(v@) + mark_stringize(all) =~= mark_stringize(all));
    }
    while i < tokens.len()
        invariant
            i <= tokens.len(),
            all == tokens_view(tokens@),
            mark_stringize(all) == tokens_view(v@) + mark_stringize(all.skip(i as int)),
        decreases tokens.len() - i,
    {
        let ghost rest = all.skip(i as int);
        let ghost before = tokens_view(v@);
        if tokens[i].ty == TokenType::HashMark && tokens.len() - i >= 2 {
            let mut marked = tokens[i + 1].clone();
            marked.stringize = true;
            proof {
                lemma_tokens_view_push(v@, marked);
                assert(rest.skip(2) == all.skip(i as int + 2));
                assert(before.push(marked@) + mark_stringize(rest.skip(2)) =~= before + (seq![
                    marked@,
                ] + mark_stringize(rest.skip(2))));
            }
            v.push(marked);
            i += 2;
        } else {
            let t = tokens[i].clone();
            proof {
                lemma_tokens_view_push(v@, t);
                assert(rest.skip(1) == all.skip(i as int + 1));
                assert(before.push(t@) + mark_stringize(rest.skip(1)) =~= before + (seq![t@]
                    + mark_stringize(rest.skip(1))));
            }
            v.push(t);
            i += 1;
        }
    }
    proof {
        assert(tokens_view(v@) + Seq::<TokenView>::empty() =~= tokens_view(v@));
    }
    v
}

/// Prepares the body of a function-like macro: every use of a parameter
/// becomes a placeholder, and every `#` marks the token after it.
pub fn replace_params(m: &mut Macro)
    requires
        old(m).ty is Funclike,
    ensures
        final(m).ty == old(m).ty,
        tokens_view(final(m).tokens@) == replace_params_spec(
            tokens_view(old(m).tokens@),
            old(m)@.ty->Funclike_0,
        ),
{
    let v = match &m.ty {
        MacroType::Funclike(params) => {
            let replaced = subst_all(&m.tokens, params);
            mark_all(&replaced)
        },
        MacroType::Objlike => Vec::new(),
    };
    m.tokens = v;
}

/// Reads one argument of a macro call: the tokens up to the first `,` or
/// `)` outside parentheses.
pub fn read_one_arg(ctx: &mut Context) -> (r: Result<Vec<Token>, Error>)
    requires
        old(ctx).wf(),
    ensures
        final(ctx).wf(),
        match read_one_arg_spec(old(ctx)@.input(), old(ctx)@.pos()) {
            Ok((arg, end)) => r matches Ok(v) && tokens_view(v@) == arg && final(ctx)@ == old(ctx)@.at(
                end,
            ),
            Err(e) => r matches Err(re) && re@ == e,
        },
{
    let ghost input = ctx@.input();
    let ghost begin = ctx@.pos();
    let start = match ctx.peek() {
        Some(t) => t.clone(),
        None => {
            return Err(Error::bare(ErrorKind::UnclosedArgument));
        },
    };
    let mut v: Vec<Token> = Vec::new();
    let mut level: usize = 0;
    proof {
        assert(tokens_view(v@) =~= input.subrange(begin, begin));
    }
    while ctx.preprocess.pos < ctx.preprocess.input.len()
        invariant
            ctx.wf(),
            0 <= begin <= ctx@.pos(),
            begin == old(ctx)@.pos(),
            begin < input.len(),
            start@ == input[begin],
            ctx@ == old(ctx)@.at(ctx@.pos()),
            input == old(ctx)@.input(),
            input == tokens_view(ctx.preprocess.input@),
            level <= ctx@.pos() - begin,
            arg_end(input, begin, 0) == arg_end(input, ctx@.pos(), level as nat),
            tokens_view(v@) == input.subrange(begin, ctx@.pos()),
        decreases ctx.preprocess.input.len() - ctx.preprocess.pos,
    {
        let t = ctx.preprocess.input[ctx.preprocess.pos].clone();
        if level == 0 && (t.ty == TokenType::RightParen || t.ty == TokenType::Comma) {
            return Ok(v);
        }
        if t.ty == TokenType::LeftParen {
            level += 1;
        } else if t.ty == TokenType::RightParen {
            level -= 1;
        }
        proof {
            lemma_tokens_view_push(v@, t);
            assert(input.subrange(begin, ctx@.pos()).push(t@) =~= input.subrange(
                begin,
                ctx@.pos() + 1,
            ));
        }
        v.push(t);
        ctx.preprocess.pos += 1;
    }
    Err(Error::at(ErrorKind::UnclosedArgument, &start))
}

/// Reads the arguments of a macro call, after its opening parenthesis,
/// up to and including its closing parenthesis.
pub fn read_args(ctx: &mut Context) -> (r: Result<Vec<Vec<Token>>, Error>)
    requires
        old(ctx).wf(),
    ensures
        final(ctx).wf(),
        match read_args_spec(old(ctx)@.input(), old(ctx)@.pos()) {
            Ok((args, after)) => r matches Ok(v) && args_view(v@) == args && final(ctx)@ == old(
                ctx,
            )@.at(after),
            Err(e) => r matches Err(re) && re@ == e,
        },
{
    let ghost input = ctx@.input();
    let mut v: Vec<Vec<Token>> = Vec::new();
    if ctx.consume(TokenType::RightParen) {
        proof {
            assert(args_view(v@) =~= Seq::<Seq<TokenView>>::empty());
        }
        return Ok(v);
    }
    proof {
        assert(args_view(v@) =~= Seq::<Seq<TokenView>>::empty());
    }
    loop
        invariant
            ctx.wf(),
            input == old(ctx)@.input(),
            ctx@ == old(ctx)@.at(ctx@.pos()),
            read_args_spec(input, old(ctx)@.pos()) == more_args_spec(input, ctx@.pos(), args_view(v@)),
        decreases input.len() - ctx@.pos(),
    {
        let ghost before = ctx@.pos();
        let arg = read_one_arg(ctx)?;
        proof {
            lemma_arg_end(input, before, 0);
            assert(args_view(v@.push(arg)) =~= args_view(v@).push(tokens_view(arg@)));
        }
        v.push(arg);
        if ctx.consume(TokenType::RightParen) {
            return Ok(v);
        }
        let comma = ctx.get(TokenType::Comma);
        match comma {
            Ok(_) => {},
            Err(e) => {
                return Err(e);
            },
        }
    }
}

/// Turns the argument `tokens` into one string token at the place of
/// the placeholder `at`: the texts of the tokens, a space between them.
pub fn stringize(tokens: &Vec<Token>, at: &Token) -> (t: Token)
    ensures
        t@ == stringize_spec(tokens_view(tokens@), at@),
{
    let ghost all = tokens_view(tokens@);
    let mut sb = String::new();
    let mut i: usize = 0;
    proof {
        reveal_strlit(" ");
        assert(sb@ =~= join_text(all.take(0)));
    }
    while i < tokens.len()
        invariant
            i <= tokens.len(),
            all == tokens_view(tokens@),
            sb@ == join_text(all.take(i as int)),
            " "@ == seq![' '],
        decreases tokens.len() - i,
    {
        proof {
            assert(all.take(i as int + 1).drop_last() == all.take(i as int));
            assert(all.take(i as int + 1).last().text == tokens[i as int].text@);
        }
        if i != 0 {
            sb.append(" ");
        }
        sb.append(tokens[i].text.as_str());
        proof {
            if i == 0 {
                assert(sb@ =~= tokens[i as int].text@);
            }
        }
        i += 1;
    }
    proof {
        assert(all.take(tokens.len() as int) == all);
    }
    let len = sb.as_str().len();
    at.synthesized(TokenType::Str, len, sb)
}

/// Where `t` is `__LINE__`, emits the line of `start` in its place;
/// says whether it did.
pub fn add_special_macro(t: &Token, start: &Token, ctx: &mut Context) -> (b: bool)
    ensures
        old(ctx).wf() ==> final(ctx).wf(),
        match special_macro(t@, start@) {
            Some(n) => b && final(ctx)@ == old(ctx)@.emit(seq![n]),
            None => !b && final(ctx)@ == old(ctx)@,
        },
{
    proof {
        reveal_strlit("__LINE__");
        assert("__LINE__"@ =~= line_macro());
    }
    if is_ident(t, "__LINE__") {
        ctx.emit(start.synthesized(TokenType::Num, start.line, String::new()));
        true
    } else {
        false
    }
}

/// Emits the body of an object-like macro that is used at `start`.
pub fn apply_objlike(tokens: Vec<Token>, start: &Token, ctx: &mut Context)
    ensures
        old(ctx).wf() ==> final(ctx).wf(),
        final(ctx)@ == old(ctx)@.emit(expand_objlike(tokens_view(tokens@), start@)),
{
    let ghost body = tokens_view(tokens@);
    let ghost want = expand_objlike(body, start@);
    let mut i: usize = 0;
    proof {
        lemma_emit_emit(ctx@, Seq::empty(), Seq::empty());
        assert(want.take(0) =~= Seq::<TokenView>::empty());
    }
    while i < tokens.len()
        invariant
            i <= tokens.len(),
            old(ctx).wf() ==> ctx.wf(),
            body == tokens_view(tokens@),
            want == expand_objlike(body, start@),
            ctx@ == old(ctx)@.emit(want.take(i as int)),
        decreases tokens.len() - i,
    {
        proof {
            lemma_emit_emit(old(ctx)@, want.take(i as int), seq![want[i as int]]);
            assert(want.take(i as int) + seq![want[i as int]] =~= want.take(i as int + 1));
        }
        if !add_special_macro(&tokens[i], start, ctx) {
            ctx.emit(tokens[i].clone());
        }
        i += 1;
    }
    proof {
        assert(want.take(tokens.len() as int) == want);
    }
}

/// An error among the first `k` body tokens is the error of the expansion.
pub proof fn lemma_expand_funclike_err(
    body: Seq<TokenView>,
    args: Seq<Seq<TokenView>>,
    start: TokenView,
    k: int,
)
    requires
        0 <= k <= body.len(),
        expand_funclike(body.take(k), args, start) is Err,
    ensures
        expand_funclike(body, args, start) == expand_funclike(body.take(k), args, start),
    decreases body.len() - k,
{
    if k < body.len() {
        assert(body.take(k + 1).drop_last() == body.take(k));
        lemma_expand_funclike_err(body, args, start, k + 1);
    } else {
        assert(body.take(k) == body);
    }
}

/// Emits the body of a function-like macro that is called at `start`:
/// reads the arguments, which must be as many as there are parameters,
/// and puts them in the place of the placeholders.
pub fn apply_funclike(
    tokens: Vec<Token>,
    params: &Vec<String>,
    start: &Token,
    ctx: &mut Context,
) -> (r: Result<(), Error>)
    requires
        old(ctx).wf(),
    ensures
        final(ctx).wf(),
        match apply_spec(
            MacroView {
                ty: MacroTypeView::Funclike(strings_view(params@)),
                tokens: tokens_view(tokens@),
            },
            start@,
            old(ctx)@.input(),
            old(ctx)@.pos(),
        ) {
            Ok((out, after)) => r is Ok && final(ctx)@ == old(ctx)@.at(after).emit(out),
            Err(e) => r matches Err(re) && re@ == e,
        },
{
    let ghost body = tokens_view(tokens@);
    ctx.get(TokenType::LeftParen)?;
    let args = read_args(ctx)?;
    if params.len() != args.len() {
        return Err(Error::at(ErrorKind::ParamCountMismatch, start));
    }
    let ghost base = ctx@;
    let ghost av = args_view(args@);
    let ghost want = apply_spec(
        MacroView { ty: MacroTypeView::Funclike(strings_view(params@)), tokens: body },
        start@,
        old(ctx)@.input(),
        old(ctx)@.pos(),
    );
    let mut i: usize = 0;
    proof {
        lemma_emit_emit(base, Seq::empty(), Seq::empty());
        assert(body.take(0) =~= Seq::<TokenView>::empty());
        assert(strings_view(params@).len() == params.len());
        assert(av.len() == args.len());
        assert(get_spec(old(ctx)@.input(), old(ctx)@.pos(), TokenType::LeftParen) is Ok);
        lemma_read_args_advances(old(ctx)@.input(), old(ctx)@.pos() + 1);
        assert(read_args_spec(old(ctx)@.input(), old(ctx)@.pos() + 1) == Ok::<
            (Seq<Seq<TokenView>>, int),
            ErrorView,
        >((av, base.pos())));
    }
    while i < tokens.len()
        invariant
            i <= tokens.len(),
            ctx.wf(),
            body == tokens_view(tokens@),
            av == args_view(args@),
            base == old(ctx)@.at(base.pos()),
            want == apply_spec(
                MacroView { ty: MacroTypeView::Funclike(strings_view(params@)), tokens: body },
                start@,
                old(ctx)@.input(),
                old(ctx)@.pos(),
            ),
            want == (match expand_funclike(body, av, start@) {
                Err(err) => Err::<(Seq<TokenView>, int), ErrorView>(err),
                Ok(out) => Ok((out, base.pos())),
            }),
            expand_funclike(body.take(i as int), av, start@) is Ok,
            ctx@ == base.emit(expand_funclike(body.take(i as int), av, start@)->Ok_0),
        decreases tokens.len() - i,
    {
        let ghost done = expand_funclike(body.take(i as int), av, start@)->Ok_0;
        proof {
            assert(body.take(i as int + 1).drop_last() == body.take(i as int));
            assert(body.take(i as int + 1).last() == tokens[i as int]@);
        }
        let t = &tokens[i];
        if add_special_macro(t, start, ctx) {
            proof {
                lemma_emit_emit(base, done, expand_token(t@, av, start@)->Ok_0);
            }
        } else if t.ty == TokenType::Param {
            if t.val >= args.len() {
                proof {
                    lemma_expand_funclike_err(body, av, start@, i as int + 1);
                }
                return Err(Error::at(ErrorKind::UnexpectedToken, t));
            }
            if t.stringize {
                ctx.emit(stringize(&args[t.val], t));
            } else {
                ctx.emit_all(&args[t.val]);
            }
            proof {
                lemma_emit_emit(base, done, expand_token(t@, av, start@)->Ok_0);
            }
        } else {
            ctx.emit(t.clone());
            proof {
                lemma_emit_emit(base, done, expand_token(t@, av, start@)->Ok_0);
            }
        }
        i += 1;
    }
    proof {
        assert(body.take(tokens.len() as int) == body);
    }
    Ok(())
}

/// Replaces the use of the macro `m` at the token `start`.
pub fn apply(m: Macro, start: &Token, ctx: &mut Context) -> (r: Result<(), Error>)
    requires
        old(ctx).wf(),
    ensures
        final(ctx).wf(),
        match apply_spec(m@, start@, old(ctx)@.input(), old(ctx)@.pos()) {
            Ok((out, after)) => r is Ok && final(ctx)@ == old(ctx)@.at(after).emit(out),
            Err(e) => r matches Err(re) && re@ == e,
        },
{
    let Macro { ty, tokens } = m;
    match ty {
        MacroType::Objlike => {
            apply_objlike(tokens, start, ctx);
            Ok(())
        },
        MacroType::Funclike(params) => apply_funclike(tokens, &params, start, ctx),
    }
}

/// Whether what a definition or an inclusion left behind is the state
/// `before` with the macros `macros`, read up to `pos`.
pub open spec fn defined_as(
    after: ContextView,
    before: ContextView,
    macros: Map<Seq<char>, MacroView>,
    pos: int,
) -> bool {
    after == (ContextView { macros, ..before.at(pos) })
}

/// Reads the parameters and the body of a function-like macro called
/// `name`, after the opening parenthesis, and defines it.
pub fn funclike_macro(name: String, ctx: &mut Context) -> (r: Result<(), Error>)
    requires
        old(ctx).wf(),
    ensures
        final(ctx).wf(),
        match params_spec(old(ctx)@.input(), old(ctx)@.pos()) {
            Ok((params, body)) => r is Ok && defined_as(
                final(ctx)@,
                old(ctx)@,
                old(ctx)@.macros.insert(
                    name@,
                    MacroView {
                        ty: MacroTypeView::Funclike(params),
                        tokens: replace_params_spec(
                            old(ctx)@.input().subrange(body, line_end(old(ctx)@.input(), body)),
                            params,
                        ),
                    },
                ),
                next_line(old(ctx)@.input(), body),
            ),
            Err(e) => r matches Err(re) && re@ == e,
        },
{
    let ghost input = ctx@.input();
    let mut params: Vec<String> = Vec::new();
    let first = ctx.ident()?;
    proof {
        assert(strings_view(params@.push(first)) =~= seq![first@]);
    }
    params.push(first);
    loop
        invariant_except_break
            params_spec(input, old(ctx)@.pos()) == more_params_spec(
                input,
                ctx@.pos(),
                strings_view(params@),
            ),
        invariant
            ctx.wf(),
            input == old(ctx)@.input(),
            ctx@ == old(ctx)@.at(ctx@.pos()),
        ensures
            params_spec(input, old(ctx)@.pos()) == Ok::<(Seq<Seq<char>>, int), ErrorView>(
                (strings_view(params@), ctx@.pos()),
            ),
        decreases input.len() - ctx@.pos(),
    {
        if ctx.consume(TokenType::RightParen) {
            break ;
        }
        ctx.get(TokenType::Comma)?;
        let p = ctx.ident()?;
        proof {
            assert(strings_view(params@.push(p)) =~= strings_view(params@).push(p@));
        }
        params.push(p);
    }
    let ghost body = ctx@.pos();
    proof {
        lemma_line_end(input, body);
    }
    let mut m = Macro::new(MacroType::Funclike(params));
    m.tokens = ctx.read_until_eol();
    replace_params(&mut m);
    ctx.macros.insert(name, m);
    Ok(())
}

/// Reads the body of an object-like macro called `name` and defines it.
pub fn objlike_macro(name: String, ctx: &mut Context)
    requires
        old(ctx).wf(),
    ensures
        final(ctx).wf(),
        defined_as(
            final(ctx)@,
            old(ctx)@,
            old(ctx)@.macros.insert(
                name@,
                MacroView {
                    ty: MacroTypeView::Objlike,
                    tokens: old(ctx)@.input().subrange(
                        old(ctx)@.pos(),
                        line_end(old(ctx)@.input(), old(ctx)@.pos()),
                    ),
                },
            ),
            next_line(old(ctx)@.input(), old(ctx)@.pos()),
        ),
{
    proof {
        lemma_line_end(ctx@.input(), ctx@.pos());
    }
    let mut m = Macro::new(MacroType::Objlike);
    m.tokens = ctx.read_until_eol();
    ctx.macros.insert(name, m);
}

/// Obeys `#define`, after the word `define`.
pub fn define(ctx: &mut Context) -> (r: Result<(), Error>)
    requires
        old(ctx).wf(),
    ensures
        final(ctx).wf(),
        match define_spec(old(ctx)@.macros, old(ctx)@.input(), old(ctx)@.pos()) {
            Ok((macros, after)) => r is Ok && defined_as(final(ctx)@, old(ctx)@, macros, after),
            Err(e) => r matches Err(re) && re@ == e,
        },
{
    let name = ctx.ident()?;
    if ctx.consume(TokenType::LeftParen) {
        return funclike_macro(name, ctx);
    }
    objlike_macro(name, ctx);
    Ok(())
}

/// Obeys `#include`, after the word `include`, as far as the input goes:
/// reads the path, which the end of the line must follow, and returns it.
pub fn read_include(ctx: &mut Context) -> (r: Result<String, Error>)
    requires
        old(ctx).wf(),
    ensures
        final(ctx).wf(),
        match include_spec(old(ctx)@.input(), old(ctx)@.pos()) {
            Ok((path, after)) => r matches Ok(p) && p@ == path && final(ctx)@ == old(ctx)@.at(after),
            Err(e) => r matches Err(re) && re@ == e,
        },
{
    let path = ctx.ident()?;
    ctx.get(TokenType::NewLine)?;
    Ok(path)
}

/// Whether no token of `input` from `pos` on is `#` or the name of a macro.
pub open spec fn plain_from(macros: Map<Seq<char>, MacroView>, input: Seq<TokenView>, pos: int) -> bool {
    forall|i: int|
        pos <= i < input.len() ==> (#[trigger] input[i]).ty != TokenType::HashMark && !(input[i].ty
            == TokenType::Ident && macros.contains_key(input[i].name))
}

/// Tokens that are neither `#` nor the name of a macro are copied to
/// the output as they stand, and define nothing.
pub proof fn lemma_plain_tokens_are_copied(
    macros: Map<Seq<char>, MacroView>,
    input: Seq<TokenView>,
    pos: int,
    output: Seq<TokenView>,
)
    requires
        0 <= pos <= input.len(),
        plain_from(macros, input, pos),
    ensures
        run_spec(macros, input, pos, output) == (RunView::Done {
            macros,
            output: output + input.subrange(pos, input.len() as int),
        }),
    decreases input.len() - pos,
{
    if pos < input.len() {
        lemma_plain_tokens_are_copied(macros, input, pos + 1, output.push(input[pos]));
        assert(output.push(input[pos]) + input.subrange(pos + 1, input.len() as int) =~= output
            + input.subrange(pos, input.len() as int));
    } else {
        assert(output + input.subrange(pos, input.len() as int) =~= output);
    }
}

/// A call of a function-like macro with another number of arguments
/// than the macro has parameters ends the run at once, with an error at
/// the place of the call, whatever was read and defined before.
pub proof fn lemma_count_mismatch_is_fatal(
    macros: Map<Seq<char>, MacroView>,
    input: Seq<TokenView>,
    pos: int,
    output: Seq<TokenView>,
)
    requires
        0 <= pos < input.len(),
        input[pos].ty == TokenType::Ident,
        macros.contains_key(input[pos].name),
        macros[input[pos].name].ty is Funclike,
        next_is(input, pos + 1, TokenType::LeftParen),
        read_args_spec(input, pos + 2) matches Ok((args, _)) && args.len()
            != macros[input[pos].name].ty->Funclike_0.len(),
    ensures
        run_spec(macros, input, pos, output) == RunView::Failed(
            ErrorView::at(ErrorKind::ParamCountMismatch, input[pos]),
        ),
{
}

/// An object-like macro gives the same tokens wherever it is used on one
/// line: what it gives depends on its body and on the line of its use only.
pub proof fn lemma_objlike_is_deterministic(body: Seq<TokenView>, a: TokenView, b: TokenView)
    requires
        a.line == b.line,
        a.filename == b.filename,
    ensures
        expand_objlike(body, a) == expand_objlike(body, b),
{
    assert(expand_objlike(body, a) =~= expand_objlike(body, b));
}

/// An argument is not split at a comma inside parentheses: while a
/// parenthesis of the argument is open, a comma does not end the argument.
pub proof fn lemma_nested_comma_does_not_end_argument(
    input: Seq<TokenView>,
    pos: int,
    level: nat,
)
    requires
        0 <= pos < input.len(),
        level > 0,
        input[pos].ty == TokenType::Comma,
    ensures
        arg_end(input, pos, level) == arg_end(input, pos + 1, level),
{
}

/// What the preprocessor has come to.
#[derive(Debug, PartialEq, Eq)]
pub enum Step {
    /// The input is read to its end; these are the tokens it gave.
    Done(Vec<Token>),
    /// The input includes the file of this path. Its tokens, preprocessed
    /// in the same context, are to be handed to [`resume`].
    Include(String),
}

/// Whether the result `r` and the state `after` are what `expected` says
/// of a run that started in the state `before`.
///
/// When the input is read to its end, its frame is taken off the stack
/// and the frame below is active again.
pub open spec fn ran_as(
    r: Result<Step, Error>,
    after: ContextView,
    before: ContextView,
    expected: RunView,
) -> bool {
    match expected {
        RunView::Done { macros, output } => r matches Ok(Step::Done(out)) && tokens_view(out@)
            == output && after == (ContextView {
            macros,
            preprocess: before.stack.last(),
            stack: before.stack.drop_last(),
        }),
        RunView::Include { macros, pos, output, path } => r matches Ok(Step::Include(p)) && p@
            == path && after == (ContextView {
            macros,
            preprocess: PreprocessView { input: before.input(), output, pos: pos as usize },
            stack: before.stack,
        }),
        RunView::Failed(e) => r matches Err(re) && re@ == e,
    }
}

/// Reads the active frame on, up to its end or to the next inclusion.
pub fn run(ctx: &mut Context) -> (r: Result<Step, Error>)
    requires
        old(ctx).wf(),
        old(ctx)@.stack.len() > 0,
    ensures
        final(ctx).wf(),
        ran_as(
            r,
            final(ctx)@,
            old(ctx)@,
            run_spec(
                old(ctx)@.macros,
                old(ctx)@.input(),
                old(ctx)@.pos(),
                old(ctx)@.preprocess.output,
            ),
        ),
{
    let ghost input = ctx@.input();
    let ghost want = run_spec(ctx@.macros, input, ctx@.pos(), ctx@.preprocess.output);
    proof {
        reveal_strlit("define");
        reveal_strlit("include");
        assert("define"@ =~= define_word());
        assert("include"@ =~= include_word());
    }
    while !ctx.eof()
        invariant
            ctx.wf(),
            ctx@.stack.len() > 0,
            "define"@ == define_word(),
            "include"@ == include_word(),
            input == ctx@.input(),
            input == old(ctx)@.input(),
            ctx@.stack == old(ctx)@.stack,
            want == run_spec(old(ctx)@.macros, input, old(ctx)@.pos(), old(ctx)@.preprocess.output),
            want == run_spec(ctx@.macros, input, ctx@.pos(), ctx@.preprocess.output),
        decreases input.len() - ctx@.pos(),
    {
        let ghost before = ctx@;
        let t = match ctx.next() {
            Some(t) => t,
            None => {
                return Err(Error::bare(ErrorKind::UnexpectedEof));
            },
        };
        if t.ty == TokenType::Ident {
            let found = match ctx.macros.get(&t.name) {
                Some(m) => Some(m.clone()),
                None => None,
            };
            match found {
                Some(m) => {
                    proof {
                        lemma_apply_advances(m@, t@, input, before.pos() + 1);
                    }
                    apply(m, &t, ctx)?;
                },
                None => {
                    proof {
                        assert(before.preprocess.output.push(t@) =~= before.preprocess.output
                            + seq![t@]);
                    }
                    ctx.emit(t);
                },
            }
            continue ;
        }
        if t.ty != TokenType::HashMark {
            proof {
                assert(before.preprocess.output.push(t@) =~= before.preprocess.output + seq![t@]);
            }
            ctx.emit(t);
            continue ;
        }
        let word = ctx.ident()?;
        if word == "define".to_owned() {
            proof {
                lemma_define_advances(before.macros, input, before.pos() + 2);
            }
            define(ctx)?;
        } else if word == "include".to_owned() {
            let path = read_include(ctx)?;
            return Ok(Step::Include(path));
        } else {
            return Err(Error::at(ErrorKind::UnknownDirective, &t));
        }
    }
    let mut frame = match ctx.stack.pop() {
        Some(f) => f,
        None => Preprocess::default(),
    };
    core::mem::swap(&mut ctx.preprocess, &mut frame);
    proof {
        assert(frames_view(ctx.stack@) =~= old(ctx)@.stack.drop_last());
    }
    Ok(Step::Done(frame.output))
}

/// Preprocesses `tokens`: reads them in a frame of their own, on top of
/// the frames that `ctx` holds, with the macros that `ctx` holds.
///
/// Returns the tokens that the input gave, or the path of the file that
/// the input asks for next. An error is fatal: it leaves the frames as
/// they were when it was met, and the context is of no further use.
pub fn preprocess(tokens: Vec<Token>, ctx: &mut Context) -> (r: Result<Step, Error>)
    requires
        old(ctx).wf(),
    ensures
        final(ctx).wf(),
        ran_as(
            r,
            final(ctx)@,
            ContextView {
                macros: old(ctx)@.macros,
                preprocess: PreprocessView {
                    input: tokens_view(tokens@),
                    output: Seq::empty(),
                    pos: 0,
                },
                stack: old(ctx)@.stack.push(old(ctx)@.preprocess),
            },
            run_spec(old(ctx)@.macros, tokens_view(tokens@), 0, Seq::empty()),
        ),
{
    ctx.new_preprocess(tokens);
    run(ctx)
}

/// Goes on after an inclusion: adds `included`, the tokens that the
/// included file gave, to the output, and reads the active frame on.
pub fn resume(included: Vec<Token>, ctx: &mut Context) -> (r: Result<Step, Error>)
    requires
        old(ctx).wf(),
        old(ctx)@.stack.len() > 0,
    ensures
        final(ctx).wf(),
        ran_as(
            r,
            final(ctx)@,
            old(ctx)@.emit(tokens_view(included@)),
            run_spec(
                old(ctx)@.macros,
                old(ctx)@.input(),
                old(ctx)@.pos(),
                old(ctx)@.preprocess.output + tokens_view(included@),
            ),
        ),
{
    ctx.emit_all(&included);
    run(ctx)
}

} // verus!
