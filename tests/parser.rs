use bsm::opcode::Opcode;
use bsm::parser::Parser;

#[test]
fn empty_source_is_empty_program() {
    assert_eq!(Parser::parse(""), Vec::<Opcode>::new());
}

#[test]
fn whitespace_source_is_empty_program() {
    assert_eq!(Parser::parse(" \t\n\r\u{3000}\u{a0}  "), Vec::<Opcode>::new());
}

#[test]
fn prose_is_empty_program() {
    assert_eq!(Parser::parse("hello world, this is just a comment."), Vec::<Opcode>::new());
}

#[test]
fn every_mnemonic() {
    let source = "アル中 ！ ! ？ ? かも おいしー あつい あっつい あづい あっづい まじぇまじぇ ふう またね ぷはー ぷっはー できた でぎだ b ｂ デバッグ";
    assert_eq!(
        Parser::parse(source),
        vec![
            Opcode::Zero,
            Opcode::Inc,
            Opcode::Inc,
            Opcode::Dec,
            Opcode::Dec,
            Opcode::Push,
            Opcode::Pop,
            Opcode::Label,
            Opcode::Label,
            Opcode::Label,
            Opcode::Label,
            Opcode::Swap,
            Opcode::JumpIfZero,
            Opcode::JumpIfNotZero,
            Opcode::Compare,
            Opcode::Compare,
            Opcode::OutChar,
            Opcode::OutChar,
            Opcode::OutNum,
            Opcode::OutNum,
            Opcode::Debug,
        ]
    );
}

#[test]
fn inc_spellings_compile_alike() {
    assert_eq!(Parser::parse("!"), vec![Opcode::Inc]);
    assert_eq!(Parser::parse("！"), vec![Opcode::Inc]);
    assert_eq!(Parser::parse("!！!"), Parser::parse("!!!"));
}

#[test]
fn whitespace_inside_a_mnemonic_is_skipped() {
    assert_eq!(Parser::parse("アル\u{3000}中"), vec![Opcode::Zero]);
    assert_eq!(Parser::parse("アル\n中"), vec![Opcode::Zero]);
    assert_eq!(Parser::parse("ま\tた ね"), vec![Opcode::JumpIfNotZero]);
}

#[test]
fn broken_mnemonic_is_dropped() {
    // "あい" is no prefix of any spelling: the buffer is discarded, and the
    // characters after it start afresh.
    assert_eq!(Parser::parse("あいかも"), vec![Opcode::Push]);
    // The character that breaks a prefix is discarded with it.
    assert_eq!(Parser::parse("アル!b"), vec![Opcode::OutNum]);
}

#[test]
fn prose_around_mnemonics_is_ignored() {
    assert_eq!(
        Parser::parse("first アル中 then !! and finally b"),
        vec![Opcode::Zero, Opcode::Inc, Opcode::Inc, Opcode::OutNum]
    );
}
