use minicc::error::Error;
use minicc::error::ErrorCategory;
use minicc::error::ErrorKind;
use minicc::macros::Macro;
use minicc::macros::MacroTable;
use minicc::macros::MacroType;
use minicc::preprocess::add_special_macro;
use minicc::preprocess::apply;
use minicc::preprocess::apply_funclike;
use minicc::preprocess::apply_objlike;
use minicc::preprocess::define;
use minicc::preprocess::is_ident;
use minicc::preprocess::preprocess;
use minicc::preprocess::read_args;
use minicc::preprocess::read_include;
use minicc::preprocess::read_one_arg;
use minicc::preprocess::replace_params;
use minicc::preprocess::resume;
use minicc::preprocess::run;
use minicc::preprocess::stringize;
use minicc::preprocess::Context;
use minicc::preprocess::Preprocess;
use minicc::preprocess::Step;
use minicc::token::Token;
use minicc::token::TokenType;

fn punct(c: char) -> Option<TokenType> {
    match c {
        '+' => Some(TokenType::Plus),
        '-' => Some(TokenType::Minus),
        '*' => Some(TokenType::Mul),
        '/' => Some(TokenType::Div),
        ',' => Some(TokenType::Comma),
        '#' => Some(TokenType::HashMark),
        ';' => Some(TokenType::Semicolon),
        '(' => Some(TokenType::LeftParen),
        ')' => Some(TokenType::RightParen),
        '{' => Some(TokenType::LeftBrace),
        '}' => Some(TokenType::RightBrace),
        '<' => Some(TokenType::LeftAngleBracket),
        '>' => Some(TokenType::RightAngleBracket),
        '=' => Some(TokenType::Equal),
        _ => None,
    }
}

/// A small lexer, enough for the inputs of these tests.
fn lex_file(src: &str, file: &str) -> Vec<Token> {
    let chars: Vec<char> = src.chars().collect();
    let mut out = Vec::new();
    let mut i = 0;
    let mut line = 0;
    while i < chars.len() {
        let c = chars[i];
        if c == '\n' {
            line += 1;
            out.push(Token::new(
                TokenType::NewLine,
                0,
                String::new(),
                String::from("\n"),
                String::from(file),
                line,
            ));
            i += 1;
        } else if c.is_whitespace() {
            i += 1;
        } else if c.is_ascii_digit() {
            let start = i;
            while i < chars.len() && chars[i].is_ascii_digit() {
                i += 1;
            }
            let text: String = chars[start..i].iter().collect();
            let val: usize = text.parse().unwrap();
            out.push(Token::new(TokenType::Num, val, String::new(), text, String::from(file), line));
        } else if c.is_alphabetic() || c == '_' {
            let start = i;
            while i < chars.len() && (chars[i].is_alphanumeric() || chars[i] == '_') {
                i += 1;
            }
            let text: String = chars[start..i].iter().collect();
            out.push(Token::new(
                TokenType::Ident,
                0,
                text.clone(),
                text,
                String::from(file),
                line,
            ));
        } else if c == '"' {
            let start = i;
            i += 1;
            while i < chars.len() && chars[i] != '"' {
                i += 1;
            }
            i += 1;
            let text: String = chars[start..i].iter().collect();
            let body: String = chars[start + 1..i - 1].iter().collect();
            out.push(Token::new(
                TokenType::Str,
                body.len(),
                body,
                text,
                String::from(file),
                line,
            ));
        } else {
            let ty = punct(c).unwrap();
            out.push(Token::new(ty, 0, String::new(), c.to_string(), String::from(file), line));
            i += 1;
        }
    }
    out
}

fn lex(src: &str) -> Vec<Token> {
    lex_file(src, "main.c")
}

/// Preprocesses a source that includes nothing.
fn expand(src: &str) -> Result<Vec<Token>, Error> {
    let mut ctx = Context::new();
    match preprocess(lex(src), &mut ctx)? {
        Step::Done(out) => Ok(out),
        Step::Include(path) => panic!("unexpected inclusion of {}", path),
    }
}

/// What the tokens spell: a number by its value, a string in quotes, a
/// placeholder as `$` and its position, anything else by its text.
fn spell(tokens: &[Token]) -> String {
    let mut words = Vec::new();
    for t in tokens {
        let w = match t.ty {
            TokenType::Num => format!("{}", t.val),
            TokenType::Str => format!("\"{}\"", t.name),
            TokenType::Ident => t.name.clone(),
            TokenType::Param => format!("${}{}", t.val, if t.stringize { "#" } else { "" }),
            TokenType::NewLine => String::from("\\n"),
            _ => t.text.clone(),
        };
        words.push(w);
    }
    words.join(" ")
}

fn kind_of<T>(r: Result<T, Error>) -> ErrorKind {
    match r {
        Ok(_) => panic!("an error was expected"),
        Err(e) => e.kind,
    }
}

#[test]
fn plain_tokens_are_copied() {
    let out = expand("int x = 1 ;\n").unwrap();
    assert_eq!(out, lex("int x = 1 ;\n"));
}

#[test]
fn empty_input_gives_empty_output() {
    assert!(expand("").unwrap().is_empty());
}

#[test]
fn objlike_macro_used_twice_gives_identical_tokens() {
    let out = expand("#define N 5\nN N\n").unwrap();
    assert_eq!(spell(&out), "5 5 \\n");
    assert_eq!(out[0], out[1]);
    assert_eq!(out[0].ty, TokenType::Num);
    assert_eq!(out[0].val, 5);
}

#[test]
fn objlike_expansion_is_the_same_in_a_fresh_context() {
    let a = expand("#define N 5\nN\n").unwrap();
    let b = expand("#define N 5\nN\n").unwrap();
    assert_eq!(a, b);
}

#[test]
fn objlike_macro_with_empty_body_gives_nothing() {
    let out = expand("#define E\na E b\n").unwrap();
    assert_eq!(spell(&out), "a b \\n");
}

#[test]
fn define_at_end_of_input_takes_rest_as_body() {
    let mut ctx = Context::new();
    let r = preprocess(lex("#define N 1 2"), &mut ctx).unwrap();
    assert_eq!(r, Step::Done(Vec::new()));
    let m = ctx.macros.get(&String::from("N")).unwrap();
    assert_eq!(spell(&m.tokens), "1 2");
    assert_eq!(m.ty, MacroType::Objlike);
}

#[test]
fn later_definition_replaces_earlier() {
    let out = expand("#define N 1\n#define N 2\nN\n").unwrap();
    assert_eq!(spell(&out), "2 \\n");
}

#[test]
fn substituted_tokens_are_not_expanded_again() {
    let out = expand("#define B 1\n#define A B\nA\n").unwrap();
    assert_eq!(spell(&out), "B \\n");
}

#[test]
fn funclike_argument_count_mismatch_is_rejected() {
    let r = expand("#define F(a,b) a+b\nF(1)\n");
    let e = r.unwrap_err();
    assert_eq!(e.kind, ErrorKind::ParamCountMismatch);
    assert_eq!(e.category(), ErrorCategory::Directive);
    assert_eq!(e.filename, "main.c");
    assert_eq!(e.line, 1);
    assert_eq!(e.clone(), e);
}

#[test]
fn funclike_too_many_arguments_is_rejected() {
    assert_eq!(kind_of(expand("#define F(a) a\nF(1,2)\n")), ErrorKind::ParamCountMismatch);
}

#[test]
fn funclike_no_arguments_for_one_parameter_is_rejected() {
    assert_eq!(kind_of(expand("#define F(a) a\nF()\n")), ErrorKind::ParamCountMismatch);
}

#[test]
fn funclike_matching_count_expands() {
    let out = expand("#define F(a,b) a+b\nF(1,2)\n").unwrap();
    assert_eq!(spell(&out), "1 + 2 \\n");
}

#[test]
fn funclike_without_parenthesis_is_rejected() {
    let e = expand("#define F(a) a\nF 1\n").unwrap_err();
    assert_eq!(e.kind, ErrorKind::UnexpectedToken);
    assert_eq!(e.category(), ErrorCategory::Token);
}

#[test]
fn funclike_at_end_of_input_is_rejected() {
    assert_eq!(kind_of(expand("#define F(a) a\nF")), ErrorKind::UnexpectedEof);
}

#[test]
fn stringizing_gives_one_string_token() {
    let out = expand("#define S(x) #x\nS(a + b)\n").unwrap();
    assert_eq!(out.len(), 2);
    assert_eq!(out[0].ty, TokenType::Str);
    assert_eq!(out[0].name, "a + b");
    assert_eq!(out[0].val, 5);
    assert_eq!(out[0].text, "");
    assert!(!out[0].stringize);
    assert_eq!(out[1].ty, TokenType::NewLine);
}

#[test]
fn stringize_joins_texts_with_one_space() {
    let at = lex("x").remove(0);
    let t = stringize(&lex("a+b  *  12"), &at);
    assert_eq!(t.ty, TokenType::Str);
    assert_eq!(t.name, "a + b * 12");
    assert_eq!(t.val, 10);
    assert_eq!(t.filename, "main.c");
}

#[test]
fn stringize_of_nothing_is_empty() {
    let at = lex("x").remove(0);
    let t = stringize(&Vec::new(), &at);
    assert_eq!(t.name, "");
    assert_eq!(t.val, 0);
}

#[test]
fn stringize_counts_bytes() {
    let at = lex("x").remove(0);
    let mut toks = lex("a");
    toks[0].text = String::from("é");
    let t = stringize(&toks, &at);
    assert_eq!(t.name, "é");
    assert_eq!(t.val, 2);
}

#[test]
fn nested_parentheses_do_not_split_an_argument() {
    let mut ctx = Context::new();
    ctx.new_preprocess(lex("(1,2),3) rest"));
    let args = read_args(&mut ctx).unwrap();
    assert_eq!(args.len(), 2);
    assert_eq!(spell(&args[0]), "( 1 , 2 )");
    assert_eq!(spell(&args[1]), "3");
    assert_eq!(ctx.preprocess.pos, 8);
}

#[test]
fn nested_parentheses_through_a_macro() {
    let out = expand("#define F(a,b) b a\nF((1,2),3)\n").unwrap();
    assert_eq!(spell(&out), "3 ( 1 , 2 ) \\n");
}

#[test]
fn read_args_of_empty_list() {
    let mut ctx = Context::new();
    ctx.new_preprocess(lex(") x"));
    let args = read_args(&mut ctx).unwrap();
    assert_eq!(args.len(), 0);
    assert_eq!(ctx.preprocess.pos, 1);
}

#[test]
fn read_args_trailing_comma_gives_empty_argument() {
    let mut ctx = Context::new();
    ctx.new_preprocess(lex("a,)"));
    let args = read_args(&mut ctx).unwrap();
    assert_eq!(args.len(), 2);
    assert_eq!(spell(&args[0]), "a");
    assert_eq!(spell(&args[1]), "");
}

#[test]
fn read_one_arg_stops_before_separator() {
    let mut ctx = Context::new();
    ctx.new_preprocess(lex("f(x, y) + 1, z)"));
    let arg = read_one_arg(&mut ctx).unwrap();
    assert_eq!(spell(&arg), "f ( x , y ) + 1");
    assert_eq!(ctx.preprocess.pos, 8);
    assert_eq!(ctx.peek().unwrap().ty, TokenType::Comma);
}

#[test]
fn unclosed_argument_is_rejected() {
    let e = expand("#define F(a) a\nF(1 + (2)").unwrap_err();
    assert_eq!(e.kind, ErrorKind::UnclosedArgument);
    assert_eq!(e.category(), ErrorCategory::Directive);
    assert_eq!(e.line, 1);
}

#[test]
fn unclosed_argument_at_end_of_input_has_no_position() {
    let mut ctx = Context::new();
    ctx.new_preprocess(Vec::new());
    let e = read_one_arg(&mut ctx).unwrap_err();
    assert_eq!(e.kind, ErrorKind::UnclosedArgument);
    assert_eq!(e.filename, "");
    assert_eq!(e.line, 0);
}

#[test]
fn square_macro_is_pure_substitution() {
    let out = expand("#define SQ(x) ((x)*(x))\nSQ(3+1)\n").unwrap();
    assert_eq!(spell(&out), "( ( 3 + 1 ) * ( 3 + 1 ) ) \\n");
    assert!(out.iter().all(|t| t.ty != TokenType::Num || t.val != 16));
}

#[test]
fn line_macro_gives_line_of_use() {
    let out = expand("#define L __LINE__\n\n\nL\n").unwrap();
    assert_eq!(out.len(), 4);
    assert_eq!(out[2].ty, TokenType::Num);
    assert_eq!(out[2].val, 3);
    assert_eq!(out[2].line, 3);
    assert_eq!(out[2].filename, "main.c");
}

#[test]
fn line_macro_in_funclike_body() {
    let out = expand("#define AT(x) x __LINE__\n\nAT(q)\n").unwrap();
    assert_eq!(spell(&out), "\\n q 2 \\n");
}

#[test]
fn line_name_outside_a_macro_body_is_copied() {
    let out = expand("__LINE__\n").unwrap();
    assert_eq!(spell(&out), "__LINE__ \\n");
}

#[test]
fn add_special_macro_ignores_other_tokens() {
    let mut ctx = Context::new();
    let toks = lex("x __LINE__");
    assert!(!add_special_macro(&toks[0], &toks[0], &mut ctx));
    assert_eq!(ctx.preprocess.output.len(), 0);
    assert!(add_special_macro(&toks[1], &toks[0], &mut ctx));
    assert_eq!(ctx.preprocess.output.len(), 1);
    assert_eq!(ctx.preprocess.output[0].ty, TokenType::Num);
}

#[test]
fn is_ident_compares_kind_and_name() {
    let toks = lex("abc 12 \"abc\"");
    assert!(is_ident(&toks[0], "abc"));
    assert!(!is_ident(&toks[0], "ab"));
    assert!(!is_ident(&toks[1], "12"));
    assert!(!is_ident(&toks[2], "abc"));
}

#[test]
fn unknown_directive_is_rejected() {
    let e = expand("\n#pragma once\n").unwrap_err();
    assert_eq!(e.kind, ErrorKind::UnknownDirective);
    assert_eq!(e.category(), ErrorCategory::Directive);
    assert_eq!(e.line, 1);
}

#[test]
fn hash_at_end_of_input_is_rejected() {
    assert_eq!(kind_of(expand("#")), ErrorKind::UnexpectedEof);
}

#[test]
fn hash_before_a_number_is_rejected() {
    assert_eq!(kind_of(expand("# 1\n")), ErrorKind::UnexpectedToken);
}

#[test]
fn define_without_a_name_is_rejected() {
    assert_eq!(kind_of(expand("#define 1\n")), ErrorKind::UnexpectedToken);
    assert_eq!(kind_of(expand("#define")), ErrorKind::UnexpectedEof);
}

#[test]
fn define_with_bad_parameter_list_is_rejected() {
    assert_eq!(kind_of(expand("#define F() x\n")), ErrorKind::UnexpectedToken);
    assert_eq!(kind_of(expand("#define F(a b) x\n")), ErrorKind::UnexpectedToken);
    assert_eq!(kind_of(expand("#define F(a,")), ErrorKind::UnexpectedEof);
    assert_eq!(kind_of(expand("#define F(a")), ErrorKind::UnexpectedEof);
}

#[test]
fn define_stores_placeholders() {
    let mut ctx = Context::new();
    ctx.new_preprocess(lex("F(a,b) a + #b c #\nnext"));
    define(&mut ctx).unwrap();
    let m = ctx.macros.get(&String::from("F")).unwrap();
    assert_eq!(m.ty, MacroType::Funclike(vec![String::from("a"), String::from("b")]));
    assert_eq!(spell(&m.tokens), "$0 + $1# c #");
    assert_eq!(ctx.preprocess.pos, 13);
}

#[test]
fn replace_params_later_parameter_of_same_name_wins() {
    let mut m = Macro::new(MacroType::Funclike(vec![String::from("a"), String::from("a")]));
    m.tokens = lex("a b");
    replace_params(&mut m);
    assert_eq!(spell(&m.tokens), "$1 b");
    assert_eq!(m.tokens[0].name, "a");
    assert_eq!(m.tokens[0].text, "");
}

#[test]
fn replace_params_marks_any_token_after_hash() {
    let mut m = Macro::new(MacroType::Funclike(vec![String::from("x")]));
    m.tokens = lex("# y # # x");
    replace_params(&mut m);
    assert_eq!(m.tokens.len(), 3);
    assert!(m.tokens[0].stringize);
    assert_eq!(m.tokens[0].name, "y");
    assert_eq!(m.tokens[1].ty, TokenType::HashMark);
    assert!(m.tokens[1].stringize);
    assert_eq!(m.tokens[2].ty, TokenType::Param);
    assert!(!m.tokens[2].stringize);
}

#[test]
fn placeholder_out_of_range_is_rejected() {
    let mut body = lex("x");
    body[0].ty = TokenType::Param;
    body[0].val = 3;
    let start = lex("F").remove(0);
    let mut ctx = Context::new();
    ctx.new_preprocess(lex("(1)"));
    let r = apply_funclike(body, &vec![String::from("a")], &start, &mut ctx);
    assert_eq!(kind_of(r), ErrorKind::UnexpectedToken);
}

#[test]
fn apply_objlike_copies_placeholders() {
    let mut body = lex("x y");
    body[0].ty = TokenType::Param;
    let start = lex("M").remove(0);
    let mut ctx = Context::new();
    apply_objlike(body.clone(), &start, &mut ctx);
    assert_eq!(ctx.preprocess.output, body);
}

#[test]
fn apply_dispatches_on_the_kind() {
    let start = lex("M").remove(0);
    let mut ctx = Context::new();
    ctx.new_preprocess(lex("(7) tail"));
    let mut m = Macro::new(MacroType::Funclike(vec![String::from("p")]));
    m.tokens = lex("p p");
    replace_params(&mut m);
    apply(m, &start, &mut ctx).unwrap();
    assert_eq!(spell(&ctx.preprocess.output), "7 7");
    assert_eq!(ctx.preprocess.pos, 3);
    let mut o = Macro::new(MacroType::Objlike);
    o.tokens = lex("k");
    apply(o, &start, &mut ctx).unwrap();
    assert_eq!(spell(&ctx.preprocess.output), "7 7 k");
    assert_eq!(ctx.preprocess.pos, 3);
}

#[test]
fn include_hands_the_path_to_the_caller() {
    let mut ctx = Context::new();
    let r = preprocess(lex("a\n#include \"x.h\"\nb\n"), &mut ctx).unwrap();
    assert_eq!(r, Step::Include(String::from("x.h")));
    assert_eq!(ctx.stack.len(), 1);
    assert_eq!(spell(&ctx.preprocess.output), "a \\n");
    let inc = match preprocess(lex_file("#define M 9\ny\n", "x.h"), &mut ctx).unwrap() {
        Step::Done(v) => v,
        Step::Include(_) => panic!("no inclusion expected"),
    };
    assert_eq!(spell(&inc), "y \\n");
    assert_eq!(ctx.stack.len(), 1);
    let r = resume(inc, &mut ctx).unwrap();
    match r {
        Step::Done(out) => assert_eq!(spell(&out), "a \\n y \\n b \\n"),
        Step::Include(_) => panic!("no inclusion expected"),
    }
    assert_eq!(ctx.stack.len(), 0);
}

#[test]
fn included_file_shares_the_macros() {
    let mut ctx = Context::new();
    let r = preprocess(lex("#define A 1\n#include \"x.h\"\nA B\n"), &mut ctx).unwrap();
    assert_eq!(r, Step::Include(String::from("x.h")));
    let inc = match preprocess(lex_file("#define B 2\nA\n", "x.h"), &mut ctx).unwrap() {
        Step::Done(v) => v,
        Step::Include(_) => panic!("no inclusion expected"),
    };
    assert_eq!(spell(&inc), "1 \\n");
    match resume(inc, &mut ctx).unwrap() {
        Step::Done(out) => assert_eq!(spell(&out), "1 \\n 1 2 \\n"),
        Step::Include(_) => panic!("no inclusion expected"),
    }
}

#[test]
fn include_needs_end_of_line_after_path() {
    assert_eq!(kind_of(expand("#include \"x.h\" y\n")), ErrorKind::UnexpectedToken);
    assert_eq!(kind_of(expand("#include \"x.h\"")), ErrorKind::UnexpectedEof);
    assert_eq!(kind_of(expand("#include 3\n")), ErrorKind::UnexpectedToken);
}

#[test]
fn read_include_returns_path_and_skips_line() {
    let mut ctx = Context::new();
    ctx.new_preprocess(lex("\"dir/x.h\"\nz"));
    assert_eq!(read_include(&mut ctx).unwrap(), "dir/x.h");
    assert_eq!(ctx.preprocess.pos, 2);
}

#[test]
fn run_pops_the_frame_when_done() {
    let mut ctx = Context::new();
    ctx.preprocess.output = lex("kept");
    ctx.new_preprocess(lex("x"));
    assert_eq!(ctx.stack.len(), 1);
    let r = run(&mut ctx).unwrap();
    assert_eq!(r, Step::Done(lex("x")));
    assert_eq!(ctx.stack.len(), 0);
    assert_eq!(ctx.preprocess.output, lex("kept"));
}

#[test]
fn two_contexts_do_not_interfere() {
    let mut a = Context::new();
    let mut b = Context::new();
    preprocess(lex("#define N 1\n"), &mut a).unwrap();
    let out = match preprocess(lex("N\n"), &mut b).unwrap() {
        Step::Done(v) => v,
        Step::Include(_) => panic!("no inclusion expected"),
    };
    assert_eq!(spell(&out), "N \\n");
    let out = match preprocess(lex("N\n"), &mut a).unwrap() {
        Step::Done(v) => v,
        Step::Include(_) => panic!("no inclusion expected"),
    };
    assert_eq!(spell(&out), "1 \\n");
}

#[test]
fn context_cursor_operations() {
    let mut ctx = Context::new();
    assert!(ctx.eof());
    assert!(ctx.peek().is_none());
    assert!(ctx.next().is_none());
    ctx.new_preprocess(lex("a , b\nc"));
    assert!(!ctx.eof());
    assert_eq!(ctx.peek().unwrap().name, "a");
    assert_eq!(ctx.ident().unwrap(), "a");
    assert!(!ctx.consume(TokenType::RightParen));
    assert_eq!(ctx.preprocess.pos, 1);
    assert!(ctx.consume(TokenType::Comma));
    assert_eq!(ctx.preprocess.pos, 2);
    assert_eq!(ctx.get(TokenType::Ident).unwrap().name, "b");
    let e = ctx.get(TokenType::Comma).unwrap_err();
    assert_eq!(e.kind, ErrorKind::UnexpectedToken);
    assert_eq!(ctx.next().unwrap().name, "c");
    assert!(ctx.eof());
    assert_eq!(ctx.get(TokenType::Comma).unwrap_err().kind, ErrorKind::UnexpectedEof);
    assert_eq!(ctx.ident().unwrap_err().kind, ErrorKind::UnexpectedEof);
    assert!(!ctx.consume(TokenType::Comma));
}

#[test]
fn ident_accepts_strings_and_rejects_the_rest() {
    let mut ctx = Context::new();
    ctx.new_preprocess(lex("\"s\" 1"));
    assert_eq!(ctx.ident().unwrap(), "s");
    assert_eq!(ctx.ident().unwrap_err().kind, ErrorKind::UnexpectedToken);
}

#[test]
fn read_until_eol_stops_at_the_line_end() {
    let mut ctx = Context::new();
    ctx.new_preprocess(lex("a b\nc d"));
    assert_eq!(spell(&ctx.read_until_eol()), "a b");
    assert_eq!(ctx.preprocess.pos, 3);
    assert_eq!(spell(&ctx.read_until_eol()), "c d");
    assert_eq!(ctx.preprocess.pos, 5);
    assert_eq!(ctx.read_until_eol().len(), 0);
    assert_eq!(ctx.preprocess.pos, 5);
}

#[test]
fn read_until_eol_on_empty_line() {
    let mut ctx = Context::new();
    ctx.new_preprocess(lex("\nx"));
    assert_eq!(ctx.read_until_eol().len(), 0);
    assert_eq!(ctx.preprocess.pos, 1);
}

#[test]
fn frame_starts_unread() {
    let p = Preprocess::new(lex("a b"));
    assert_eq!(p.pos, 0);
    assert_eq!(p.output.len(), 0);
    assert_eq!(p.input.len(), 2);
    let d = Preprocess::default();
    assert_eq!(d.input.len(), 0);
    assert_eq!(p.clone(), p);
}

#[test]
fn macro_table_lookup() {
    let mut t = MacroTable::new();
    assert!(t.get(&String::from("A")).is_none());
    let mut m = Macro::new(MacroType::Objlike);
    m.tokens = lex("1");
    t.insert(String::from("A"), m);
    let mut m2 = Macro::new(MacroType::Objlike);
    m2.tokens = lex("2");
    t.insert(String::from("B"), m2);
    assert_eq!(spell(&t.get(&String::from("A")).unwrap().tokens), "1");
    assert_eq!(spell(&t.get(&String::from("B")).unwrap().tokens), "2");
    assert!(t.get(&String::from("C")).is_none());
    let mut m3 = Macro::new(MacroType::Objlike);
    m3.tokens = lex("3");
    t.insert(String::from("A"), m3);
    assert_eq!(spell(&t.get(&String::from("A")).unwrap().tokens), "3");
}

#[test]
fn synthesized_token_takes_position_of_its_origin() {
    let at = lex_file("\n\nx", "f.c").remove(2);
    let t = at.synthesized(TokenType::Num, 7, String::new());
    assert_eq!(t.ty, TokenType::Num);
    assert_eq!(t.val, 7);
    assert_eq!(t.filename, "f.c");
    assert_eq!(t.line, 2);
    assert_eq!(t.text, "");
    assert!(!t.stringize);
}

#[test]
fn token_clone_is_equal() {
    let t = lex("abc").remove(0);
    assert_eq!(t.clone(), t);
}

#[test]
fn context_well_formedness_is_checked() {
    let mut ctx = Context::new();
    assert!(ctx.is_wf());
    ctx.new_preprocess(lex("a b"));
    assert!(ctx.is_wf());
    ctx.preprocess.pos = 2;
    assert!(ctx.is_wf());
    ctx.preprocess.pos = 3;
    assert!(!ctx.is_wf());
    ctx.preprocess.pos = 0;
    ctx.stack[0].pos = 1;
    assert!(!ctx.is_wf());
}
