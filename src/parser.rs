//! The tokenizer: source text to opcodes, by greedy matching against a fixed
//! table of mnemonics.
use vstd::prelude::*;

use crate::machine::initial_state;
use crate::opcode::Opcode;
use crate::run::run;
use crate::text::{ascii_white_space, is_ascii_white_space, is_white_space, white_space};

verus! {

/// The mnemonic table: each spelling with the opcode it stands for.
pub open spec fn mnemonics() -> Seq<(Seq<char>, Opcode)> {
    seq![
        (seq!['ア', 'ル', '中'], Opcode::Zero),
        (seq!['！'], Opcode::Inc),
        (seq!['!'], Opcode::Inc),
        (seq!['？'], Opcode::Dec),
        (seq!['?'], Opcode::Dec),
        (seq!['か', 'も'], Opcode::Push),
        (seq!['お', 'い', 'し', 'ー'], Opcode::Pop),
        (seq!['あ', 'つ', 'い'], Opcode::Label),
        (seq!['あ', 'っ', 'つ', 'い'], Opcode::Label),
        (seq!['あ', 'づ', 'い'], Opcode::Label),
        (seq!['あ', 'っ', 'づ', 'い'], Opcode::Label),
        (seq!['ま', 'じ', 'ぇ', 'ま', 'じ', 'ぇ'], Opcode::Swap),
        (seq!['ふ', 'う'], Opcode::JumpIfZero),
        (seq!['ま', 'た', 'ね'], Opcode::JumpIfNotZero),
        (seq!['ぷ', 'は', 'ー'], Opcode::Compare),
        (seq!['ぷ', 'っ', 'は', 'ー'], Opcode::Compare),
        (seq!['で', 'き', 'た'], Opcode::OutChar),
        (seq!['で', 'ぎ', 'だ'], Opcode::OutChar),
        (seq!['b'], Opcode::OutNum),
        (seq!['ｂ'], Opcode::OutNum),
        (seq!['デ', 'バ', 'ッ', 'グ'], Opcode::Debug),
    ]
}

/// `t` can still grow into some mnemonic (or already is one).
pub open spec fn is_mnemonic_prefix(t: Seq<char>) -> bool {
    exists|i: int| 0 <= i < mnemonics().len() && t.is_prefix_of(#[trigger] mnemonics()[i].0)
}

/// The opcode of the last entry of `table` spelled `t`.
pub open spec fn find_spelling(table: Seq<(Seq<char>, Opcode)>, t: Seq<char>) -> Option<Opcode>
    decreases table.len(),
{
    if table.len() == 0 {
        None
    } else if table.last().0 == t {
        Some(table.last().1)
    } else {
        find_spelling(table.drop_last(), t)
    }
}

/// The opcode that the mnemonic `t` stands for, if `t` is a mnemonic.
pub open spec fn opcode_of(t: Seq<char>) -> Option<Opcode> {
    find_spelling(mnemonics(), t)
}

/// Characters the tokenizer passes over without touching its buffer.
pub open spec fn is_skipped(c: char) -> bool {
    white_space(c) || ascii_white_space(c)
}

/// Some mnemonic begins with `c`.
pub open spec fn can_start(c: char) -> bool {
    is_mnemonic_prefix(seq![c])
}

/// One tokenizer step: the buffer after reading `c`, and what it emits.
pub open spec fn scan_char(token: Seq<char>, c: char) -> (Seq<char>, Seq<Opcode>) {
    if is_skipped(c) || (token.len() == 0 && !can_start(c)) {
        (token, seq![])
    } else {
        let t = token.push(c);
        if !is_mnemonic_prefix(t) {
            (seq![], seq![])
        } else {
            match opcode_of(t) {
                Some(op) => (seq![], seq![op]),
                None => (t, seq![]),
            }
        }
    }
}

/// The buffer and the opcodes emitted after reading `s`, from buffer `token`.
pub open spec fn scan_from(token: Seq<char>, s: Seq<char>) -> (Seq<char>, Seq<Opcode>)
    decreases s.len(),
{
    if s.len() == 0 {
        (token, seq![])
    } else {
        let prev = scan_from(token, s.drop_last());
        let next = scan_char(prev.0, s.last());
        (next.0, prev.1 + next.1)
    }
}

/// The opcodes that source text `s` assembles to.
pub open spec fn tokenize(s: Seq<char>) -> Seq<Opcode> {
    scan_from(seq![], s).1
}

/// Splits an index of the mnemonic table into its cases.
proof fn lemma_table_index(i: int)
    requires
        0 <= i < mnemonics().len(),
    ensures
        i == 0 || i == 1 || i == 2 || i == 3 || i == 4 || i == 5 || i == 6 || i == 7 || i == 8
            || i == 9 || i == 10 || i == 11 || i == 12 || i == 13 || i == 14 || i == 15 || i == 16
            || i == 17 || i == 18 || i == 19 || i == 20,
{
}

/// No spelling is skipped text, and none is a prefix of another.
proof fn lemma_table_shape()
    ensures
        forall|i: int, k: int|
            0 <= i < mnemonics().len() && 0 <= k < mnemonics()[i].0.len() ==> !is_skipped(
                #[trigger] mnemonics()[i].0[k],
            ),
        forall|i: int| 0 <= i < mnemonics().len() ==> #[trigger] mnemonics()[i].0.len() > 0,
        forall|i: int, j: int|
            0 <= i < mnemonics().len() && 0 <= j < mnemonics().len() && i != j ==> !(
            #[trigger] mnemonics()[j].0).is_prefix_of(#[trigger] mnemonics()[i].0),
{
    assert forall|i: int, k: int|
        0 <= i < mnemonics().len() && 0 <= k < mnemonics()[i].0.len() implies !is_skipped(
        #[trigger] mnemonics()[i].0[k],
    ) by {
        lemma_table_index(i);
    }
    assert forall|i: int| 0 <= i < mnemonics().len() implies #[trigger] mnemonics()[i].0.len()
        > 0 by {
        lemma_table_index(i);
    }
    assert forall|i: int, j: int|
        0 <= i < mnemonics().len() && 0 <= j < mnemonics().len() && i != j implies !(
        #[trigger] mnemonics()[j].0).is_prefix_of(#[trigger] mnemonics()[i].0) by {
        lemma_table_index(i);
        lemma_table_index(j);
        let a = mnemonics()[j].0;
        let b = mnemonics()[i].0;
        if a[0] != b[0] {
            lemma_differ_at(a, b, 0);
        } else if a[1] != b[1] {
            lemma_differ_at(a, b, 1);
        } else {
            lemma_differ_at(a, b, 2);
        }
    }
}

proof fn lemma_differ_at(a: Seq<char>, b: Seq<char>, d: int)
    requires
        0 <= d < a.len(),
        d >= b.len() || a[d] != b[d],
    ensures
        !a.is_prefix_of(b),
{
    if a.is_prefix_of(b) {
        assert(a[d] == b.subrange(0, a.len() as int)[d]);
    }
}

/// `find_spelling` finds nothing exactly when no entry is spelled `t`, and
/// what it finds is the opcode of an entry spelled `t`.
proof fn lemma_find_spelling(table: Seq<(Seq<char>, Opcode)>, t: Seq<char>)
    ensures
        find_spelling(table, t) is None <==> forall|j: int| 0 <= j < table.len() ==> #[trigger] table[j].0 != t,
        find_spelling(table, t) is Some ==> exists|j: int|
            0 <= j < table.len() && #[trigger] table[j] == (t, find_spelling(table, t)->Some_0),
    decreases table.len(),
{
    if table.len() > 0 {
        let rest = table.drop_last();
        lemma_find_spelling(rest, t);
        if table.last().0 != t {
            if find_spelling(rest, t) is Some {
                let j = choose|j: int| 0 <= j < rest.len() && #[trigger] rest[j] == (t, find_spelling(rest, t)->Some_0);
                assert(table[j] == rest[j]);
            }
            if find_spelling(rest, t) is None {
                assert forall|j: int| 0 <= j < table.len() implies #[trigger] table[j].0 != t by {
                    if j < rest.len() {
                        assert(table[j] == rest[j]);
                    }
                }
            }
        } else {
            assert(table[table.len() - 1] == (t, find_spelling(table, t)->Some_0));
        }
    }
}

/// The opcode of each spelling is the one the table gives it.
proof fn lemma_opcode_of_entry(i: int)
    requires
        0 <= i < mnemonics().len(),
    ensures
        opcode_of(mnemonics()[i].0) == Some(mnemonics()[i].1),
{
    let t = mnemonics()[i].0;
    lemma_table_shape();
    lemma_find_spelling(mnemonics(), t);
    let j = choose|j: int| 0 <= j < mnemonics().len() && #[trigger] mnemonics()[j] == (t, opcode_of(t)->Some_0);
    if j != i {
        assert(t.is_prefix_of(t)) by {
            assert(t =~= t.subrange(0, t.len() as int));
        }
    }
}

/// Reading one whole spelling from an empty buffer emits its opcode and
/// leaves the buffer empty.
proof fn lemma_scan_entry(i: int)
    requires
        0 <= i < mnemonics().len(),
    ensures
        scan_from(seq![], mnemonics()[i].0) == (Seq::<char>::empty(), seq![mnemonics()[i].1]),
{
    let w = mnemonics()[i].0;
    lemma_table_shape();
    lemma_scan_entry_prefix(i, w.len() - 1);
    lemma_scan_entry_char(i, w.len() - 1);
    assert(w.take(w.len() as int) =~= w);
}

/// The proper prefixes of a spelling only fill the buffer.
proof fn lemma_scan_entry_prefix(i: int, k: int)
    requires
        0 <= i < mnemonics().len(),
        0 <= k < mnemonics()[i].0.len(),
    ensures
        scan_from(seq![], mnemonics()[i].0.take(k)) == (mnemonics()[i].0.take(k), Seq::<Opcode>::empty()),
    decreases k,
{
    if k == 0 {
        assert(mnemonics()[i].0.take(0) =~= Seq::<char>::empty());
    } else {
        lemma_scan_entry_prefix(i, k - 1);
        lemma_scan_entry_char(i, k - 1);
    }
}

/// One character of a spelling, read after the characters before it.
proof fn lemma_scan_entry_char(i: int, k: int)
    requires
        0 <= i < mnemonics().len(),
        0 <= k < mnemonics()[i].0.len(),
        scan_from(seq![], mnemonics()[i].0.take(k)) == (mnemonics()[i].0.take(k), Seq::<Opcode>::empty()),
    ensures
        k + 1 < mnemonics()[i].0.len() ==> scan_from(seq![], mnemonics()[i].0.take(k + 1)) == (
        mnemonics()[i].0.take(k + 1), Seq::<Opcode>::empty()),
        k + 1 == mnemonics()[i].0.len() ==> scan_from(seq![], mnemonics()[i].0.take(k + 1)) == (
        Seq::<char>::empty(), seq![mnemonics()[i].1]),
{
    let w = mnemonics()[i].0;
    lemma_table_shape();
    let s = w.take(k + 1);
    assert(s.drop_last() =~= w.take(k));
    assert(s.last() == w[k]);
    assert(!is_skipped(w[k]));
    let t = w.take(k).push(w[k]);
    assert(t =~= s);
    assert(t.is_prefix_of(w)) by {
        assert(t =~= w.subrange(0, t.len() as int));
    }
    assert(is_mnemonic_prefix(t));
    if k == 0 {
        assert(seq![w[0]] =~= t);
        assert(can_start(w[k]));
    }
    if k + 1 < w.len() {
        lemma_find_spelling(mnemonics(), t);
        assert forall|j: int| 0 <= j < mnemonics().len() implies #[trigger] mnemonics()[j].0 != t by {
            if mnemonics()[j].0 == t {
                assert(mnemonics()[j].0.is_prefix_of(w));
            }
        }
        assert(Seq::<Opcode>::empty() + Seq::<Opcode>::empty() =~= Seq::<Opcode>::empty());
    } else {
        assert(t =~= w);
        lemma_opcode_of_entry(i);
        assert(Seq::<Opcode>::empty() + seq![mnemonics()[i].1] =~= seq![mnemonics()[i].1]);
    }
}

/// Reading `a` then `b` is reading `a + b`.
proof fn lemma_scan_concat(token: Seq<char>, a: Seq<char>, b: Seq<char>)
    ensures
        scan_from(token, a + b) == (
            scan_from(scan_from(token, a).0, b).0,
            scan_from(token, a).1 + scan_from(scan_from(token, a).0, b).1,
        ),
    decreases b.len(),
{
    let mid = scan_from(token, a);
    if b.len() == 0 {
        assert(a + b =~= a);
        assert(mid.1 + Seq::<Opcode>::empty() =~= mid.1);
    } else {
        lemma_scan_concat(token, a, b.drop_last());
        assert((a + b).drop_last() =~= a + b.drop_last());
        assert((a + b).last() == b.last());
        let prev = scan_from(mid.0, b.drop_last());
        let next = scan_char(prev.0, b.last());
        assert(mid.1 + prev.1 + next.1 =~= mid.1 + (prev.1 + next.1));
    }
}

/// Source text written as a run of mnemonics, the `k`th spelled as entry
/// `words[k]` of the table.
pub open spec fn spell(words: Seq<int>) -> Seq<char>
    decreases words.len(),
{
    if words.len() == 0 {
        seq![]
    } else {
        spell(words.drop_last()) + mnemonics()[words.last()].0
    }
}

/// The opcodes of the table entries `words`.
pub open spec fn opcodes_of(words: Seq<int>) -> Seq<Opcode> {
    words.map_values(|i: int| mnemonics()[i].1)
}

proof fn lemma_scan_spelled(words: Seq<int>)
    requires
        forall|k: int| 0 <= k < words.len() ==> 0 <= #[trigger] words[k] < mnemonics().len(),
    ensures
        scan_from(seq![], spell(words)) == (Seq::<char>::empty(), opcodes_of(words)),
    decreases words.len(),
{
    if words.len() == 0 {
        assert(opcodes_of(words) =~= Seq::<Opcode>::empty());
    } else {
        let init = words.drop_last();
        assert forall|k: int| 0 <= k < init.len() implies 0 <= #[trigger] init[k] < mnemonics().len() by {
            assert(init[k] == words[k]);
        }
        lemma_scan_spelled(init);
        lemma_scan_concat(seq![], spell(init), mnemonics()[words.last()].0);
        lemma_scan_entry(words.last());
        assert(opcodes_of(words) =~= opcodes_of(init) + seq![mnemonics()[words.last()].1]);
    }
}

/// Every spelling of a mnemonic is as good as any other: source written as
/// a run of mnemonics assembles to their opcodes in order, so two such
/// sources that differ only in which spelling each mnemonic uses assemble
/// to the same program, and so run alike.
pub proof fn lemma_spellings_interchangeable(a: Seq<int>, b: Seq<int>)
    requires
        a.len() == b.len(),
        forall|k: int| 0 <= k < a.len() ==> 0 <= #[trigger] a[k] < mnemonics().len(),
        forall|k: int| 0 <= k < b.len() ==> 0 <= #[trigger] b[k] < mnemonics().len(),
        forall|k: int| 0 <= k < a.len() ==> mnemonics()[#[trigger] a[k]].1 == mnemonics()[b[k]].1,
    ensures
        tokenize(spell(a)) == opcodes_of(a),
        tokenize(spell(a)) == tokenize(spell(b)),
        forall|m: nat, n: nat|
            #[trigger] run(initial_state(tokenize(spell(a))), m, n) == run(
                initial_state(tokenize(spell(b))),
                m,
                n,
            ),
{
    lemma_scan_spelled(a);
    lemma_scan_spelled(b);
    assert(opcodes_of(a) =~= opcodes_of(b));
}

/// Text made of whitespace and characters that begin no mnemonic leaves the
/// tokenizer's buffer empty and emits nothing.
proof fn lemma_scan_inert(s: Seq<char>)
    requires
        forall|k: int| 0 <= k < s.len() ==> is_skipped(#[trigger] s[k]) || !can_start(s[k]),
    ensures
        scan_from(seq![], s) == (Seq::<char>::empty(), Seq::<Opcode>::empty()),
    decreases s.len(),
{
    if s.len() > 0 {
        let init = s.drop_last();
        assert forall|k: int| 0 <= k < init.len() implies is_skipped(#[trigger] init[k]) || !can_start(init[k]) by {
            assert(init[k] == s[k]);
        }
        lemma_scan_inert(init);
        assert(is_skipped(s[s.len() - 1]) || !can_start(s[s.len() - 1]));
        assert(Seq::<Opcode>::empty() + Seq::<Opcode>::empty() =~= Seq::<Opcode>::empty());
    }
}

/// Empty or all-whitespace source assembles to the empty program.
pub proof fn lemma_blank_source_is_empty(s: Seq<char>)
    requires
        forall|k: int| 0 <= k < s.len() ==> is_skipped(#[trigger] s[k]),
    ensures
        tokenize(s) == Seq::<Opcode>::empty(),
{
    lemma_scan_inert(s);
}

/// Prose in which no character begins a mnemonic assembles to the empty
/// program.
pub proof fn lemma_prose_is_empty(s: Seq<char>)
    requires
        forall|k: int| 0 <= k < s.len() ==> !can_start(#[trigger] s[k]),
    ensures
        tokenize(s) == Seq::<Opcode>::empty(),
{
    lemma_scan_inert(s);
}

/// An entry of the executable mnemonic table.
struct Mnemonic {
    spelling: Vec<char>,
    opcode: Opcode,
}

spec fn table_view(t: Seq<Mnemonic>) -> Seq<(Seq<char>, Opcode)> {
    t.map_values(|m: Mnemonic| (m.spelling@, m.opcode))
}

fn mnemonic_table() -> (t: Vec<Mnemonic>)
    ensures
        table_view(t@) == mnemonics(),
{
    let mut t: Vec<Mnemonic> = Vec::new();
    t.push(Mnemonic { spelling: vec!['ア', 'ル', '中'], opcode: Opcode::Zero });
    t.push(Mnemonic { spelling: vec!['！'], opcode: Opcode::Inc });
    t.push(Mnemonic { spelling: vec!['!'], opcode: Opcode::Inc });
    t.push(Mnemonic { spelling: vec!['？'], opcode: Opcode::Dec });
    t.push(Mnemonic { spelling: vec!['?'], opcode: Opcode::Dec });
    t.push(Mnemonic { spelling: vec!['か', 'も'], opcode: Opcode::Push });
    t.push(Mnemonic { spelling: vec!['お', 'い', 'し', 'ー'], opcode: Opcode::Pop });
    t.push(Mnemonic { spelling: vec!['あ', 'つ', 'い'], opcode: Opcode::Label });
    t.push(Mnemonic { spelling: vec!['あ', 'っ', 'つ', 'い'], opcode: Opcode::Label });
    t.push(Mnemonic { spelling: vec!['あ', 'づ', 'い'], opcode: Opcode::Label });
    t.push(Mnemonic { spelling: vec!['あ', 'っ', 'づ', 'い'], opcode: Opcode::Label });
    t.push(Mnemonic { spelling: vec!['ま', 'じ', 'ぇ', 'ま', 'じ', 'ぇ'], opcode: Opcode::Swap });
    t.push(Mnemonic { spelling: vec!['ふ', 'う'], opcode: Opcode::JumpIfZero });
    t.push(Mnemonic { spelling: vec!['ま', 'た', 'ね'], opcode: Opcode::JumpIfNotZero });
    t.push(Mnemonic { spelling: vec!['ぷ', 'は', 'ー'], opcode: Opcode::Compare });
    t.push(Mnemonic { spelling: vec!['ぷ', 'っ', 'は', 'ー'], opcode: Opcode::Compare });
    t.push(Mnemonic { spelling: vec!['で', 'き', 'た'], opcode: Opcode::OutChar });
    t.push(Mnemonic { spelling: vec!['で', 'ぎ', 'だ'], opcode: Opcode::OutChar });
    t.push(Mnemonic { spelling: vec!['b'], opcode: Opcode::OutNum });
    t.push(Mnemonic { spelling: vec!['ｂ'], opcode: Opcode::OutNum });
    t.push(Mnemonic { spelling: vec!['デ', 'バ', 'ッ', 'グ'], opcode: Opcode::Debug });
    assert(t@.len() == mnemonics().len());
    assert forall|i: int| 0 <= i < mnemonics().len() implies #[trigger] table_view(t@)[i]
        == mnemonics()[i] by {
        lemma_table_index(i);
    }
    assert(table_view(t@) =~= mnemonics());
    t
}

/// Whether `a` is a prefix of `b`.
fn is_prefix(a: &Vec<char>, b: &Vec<char>) -> (r: bool)
    ensures
        r == a@.is_prefix_of(b@),
{
    if a.len() > b.len() {
        return false;
    }
    let mut i: usize = 0;
    while i < a.len()
        invariant
            i <= a.len() <= b.len(),
            forall|j: int| 0 <= j < i ==> a@[j] == b@[j],
        decreases a.len() - i,
    {
        if a[i] != b[i] {
            return false;
        }
        i = i + 1;
    }
    assert(a@ =~= b@.subrange(0, a@.len() as int));
    true
}

/// Looks `token` up in `table`: whether it is a prefix of some mnemonic, and
/// the opcode it spells, if it is a whole mnemonic.
fn classify(table: &Vec<Mnemonic>, token: &Vec<char>) -> (r: (bool, Option<Opcode>))
    requires
        table_view(table@) == mnemonics(),
    ensures
        r.0 == is_mnemonic_prefix(token@),
        r.1 == opcode_of(token@),
{
    let mut prefix = false;
    let mut found: Option<Opcode> = None;
    let mut k: usize = 0;
    while k < table.len()
        invariant
            k <= table.len(),
            table_view(table@) == mnemonics(),
            prefix == exists|j: int| 0 <= j < k && token@.is_prefix_of(#[trigger] mnemonics()[j].0),
            found == find_spelling(mnemonics().take(k as int), token@),
        decreases table.len() - k,
    {
        let entry = &table[k];
        assert(mnemonics()[k as int] == (entry.spelling@, entry.opcode));
        if is_prefix(token, &entry.spelling) {
            prefix = true;
            if token.len() == entry.spelling.len() {
                found = Some(entry.opcode);
                assert(token@ =~= entry.spelling@);
            }
        }
        assert(mnemonics().take(k + 1).drop_last() =~= mnemonics().take(k as int));
        k = k + 1;
    }
    assert(mnemonics().take(k as int) =~= mnemonics());
    (prefix, found)
}

/// The assembler.
pub struct Parser {}

impl Parser {
    /// Assembles `source` into opcodes. Whitespace is skipped; text that
    /// cannot grow into a mnemonic is dropped; each completed mnemonic
    /// emits its opcode.
    pub fn parse(source: &str) -> (r: Vec<Opcode>)
        ensures
            r@ == tokenize(source@),
    {
        let table = mnemonic_table();
        let mut token: Vec<char> = Vec::new();
        let mut result: Vec<Opcode> = Vec::new();
        for c in it: source.chars()
            invariant
                table_view(table@) == mnemonics(),
                it.seq() == source@,
                token@ == scan_from(seq![], source@.take(it.index() as int)).0,
                result@ == scan_from(seq![], source@.take(it.index() as int)).1,
        {
            let ghost s = source@.take(it.index() + 1);
            assert(s.drop_last() =~= source@.take(it.index() as int));
            let ghost before = token@;
            if !(is_white_space(c) || is_ascii_white_space(c)) {
                token.push(c);
                let (prefix, found) = classify(&table, &token);
                if !prefix {
                    token = Vec::new();
                } else if let Some(op) = found {
                    result.push(op);
                    token = Vec::new();
                }
                proof {
                    if before.len() == 0 {
                        assert(before.push(c) =~= seq![c]);
                    }
                }
            }
            assert(result@ =~= scan_from(seq![], s).1);
        }
        assert(source@.take(source@.len() as int) =~= source@);
        result
    }
}

} // verus!
