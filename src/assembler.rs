//! Emits bytes for assembler statements and back-patches label references.
use vstd::prelude::*;
use crate::bytecode::{OP_LITW, opcode_byte};
use crate::dma::{store_word, word_at, lemma_word_round_trip};
use crate::memory::{RESET_VECTOR, LOCAL_OFFSET};
use crate::parser::{Stmt, StmtView, AsmError, AsmErrorView, stmts_view, parse_from, parse};
use crate::tokenizer::{tokenize, tokens_view, lex_from};
use vstd::string::StringSliceAdditionalSpecFns;

verus! {

/// The abstract state of an assembly.
pub struct AsmState {
    /// The image: byte `k` belongs at address `RESET_VECTOR + k`.
    pub image: Seq<u8>,
    /// The emission cursor (an absolute address).
    pub index: int,
    /// Label definitions in order; a later one shadows an earlier one.
    pub labels: Seq<(Seq<u8>, u32)>,
    /// Pending references: the label and the address of the word to patch.
    pub refs: Seq<(Seq<u8>, int)>,
}

pub open spec fn initial_state() -> AsmState {
    AsmState { image: Seq::empty(), index: RESET_VECTOR as int, labels: Seq::empty(), refs: Seq::empty() }
}

/// The address of the last definition of `name`, if any.
pub open spec fn lookup(labels: Seq<(Seq<u8>, u32)>, name: Seq<u8>) -> Option<u32>
    decreases labels.len(),
{
    if labels.len() == 0 {
        None
    } else if labels.last().0 == name {
        Some(labels.last().1)
    } else {
        lookup(labels.drop_last(), name)
    }
}

/// `img` with `v` at offset `k`, zero-filled up to it when it lies past the end.
pub open spec fn put(img: Seq<u8>, k: int, v: u8) -> Seq<u8> {
    if k < img.len() {
        img.update(k, v)
    } else {
        img + Seq::new((k - img.len()) as nat, |i: int| 0u8) + seq![v]
    }
}

/// Emits one byte at the cursor; the cursor must lie in
/// `[RESET_VECTOR, LOCAL_OFFSET)`.
pub open spec fn emit(st: AsmState, v: u8) -> Result<AsmState, AsmErrorView> {
    if RESET_VECTOR <= st.index < LOCAL_OFFSET {
        Ok(AsmState { image: put(st.image, st.index - RESET_VECTOR, v), index: st.index + 1, ..st })
    } else {
        Err(AsmErrorView::AddressOutOfRange)
    }
}

/// Emits the bytes `bs` in order.
pub open spec fn emit_all(st: AsmState, bs: Seq<u8>) -> Result<AsmState, AsmErrorView>
    decreases bs.len(),
{
    if bs.len() == 0 {
        Ok(st)
    } else {
        match emit_all(st, bs.drop_last()) {
            Ok(s2) => emit(s2, bs.last()),
            Err(e) => Err(e),
        }
    }
}

/// The little-endian bytes of `v`.
pub open spec fn le_bytes(v: u32) -> Seq<u8> {
    seq![(v % 0x100) as u8, ((v / 0x100) % 0x100) as u8, ((v / 0x1_0000) % 0x100) as u8, (v / 0x100_0000) as u8]
}

/// Moves the cursor to `index`, which may not pass `LOCAL_OFFSET`.
pub open spec fn seek(st: AsmState, index: int) -> Result<AsmState, AsmErrorView> {
    if index <= LOCAL_OFFSET { Ok(AsmState { index, ..st }) } else { Err(AsmErrorView::AddressOutOfRange) }
}

/// Records a reference to `name` at the cursor and emits a placeholder word.
pub open spec fn reference(st: AsmState, name: Seq<u8>) -> Result<AsmState, AsmErrorView> {
    emit_all(AsmState { refs: st.refs.push((name, st.index)), ..st }, le_bytes(0))
}

/// The effect of one statement.
pub open spec fn stmt_spec(st: AsmState, s: StmtView) -> Result<AsmState, AsmErrorView> {
    match s {
        StmtView::OriginAbsolute(n) => seek(st, n as int),
        StmtView::OriginRelative(n) => seek(st, st.index + n),
        StmtView::LiteralWord(n) => emit_all(st, seq![OP_LITW] + le_bytes(n)),
        StmtView::LabelAbsolute(name) => Ok(AsmState { labels: st.labels.push((name, st.index as u32)), ..st }),
        StmtView::ReferenceAbsolute(name) => match emit(st, OP_LITW) {
            Ok(s2) => reference(s2, name),
            Err(e) => Err(e),
        },
        StmtView::Operation(op) => emit(st, opcode_byte(op)),
        StmtView::Text(x) => emit_all(st, x),
        StmtView::RawByte(b) => emit(st, b),
        StmtView::RawWord(n) => emit_all(st, le_bytes(n)),
        StmtView::RawReferenceAbsolute(name) => reference(st, name),
    }
}

/// The effect of the first `k` statements.
pub open spec fn stmts_spec(st: AsmState, ss: Seq<StmtView>, k: nat) -> Result<AsmState, AsmErrorView>
    decreases k,
{
    if k == 0 {
        Ok(st)
    } else {
        match stmts_spec(st, ss, (k - 1) as nat) {
            Ok(s2) => stmt_spec(s2, ss[k - 1]),
            Err(e) => Err(e),
        }
    }
}

/// `img` with the word `a` stored at offset `k`, when all four bytes lie inside it.
pub open spec fn patch_word(img: Seq<u8>, k: int, a: u32) -> Seq<u8> {
    if 0 <= k && k + 4 <= img.len() { store_word(img, k, a) } else { img }
}

/// The image with the first `k` references patched, in order.
pub open spec fn patch(img: Seq<u8>, labels: Seq<(Seq<u8>, u32)>, refs: Seq<(Seq<u8>, int)>, k: nat)
    -> Result<Seq<u8>, AsmErrorView>
    decreases k,
{
    if k == 0 {
        Ok(img)
    } else {
        match patch(img, labels, refs, (k - 1) as nat) {
            Ok(i2) => match lookup(labels, refs[k - 1].0) {
                Some(a) => Ok(patch_word(i2, refs[k - 1].1 - RESET_VECTOR, a)),
                None => Err(AsmErrorView::UndefinedLabel(refs[k - 1].0)),
            },
            Err(e) => Err(e),
        }
    }
}

/// The image that the statements `ss` assemble to.
pub open spec fn assemble_spec(ss: Seq<StmtView>) -> Result<Seq<u8>, AsmErrorView> {
    match stmts_spec(initial_state(), ss, ss.len()) {
        Ok(st) => patch(st.image, st.labels, st.refs, st.refs.len()),
        Err(e) => Err(e),
    }
}

/// Every pending reference's word lies inside the image.
pub open spec fn refs_in_image(st: AsmState) -> bool {
    forall|j: int| 0 <= j < st.refs.len() ==> RESET_VECTOR <= #[trigger] st.refs[j].1
        && st.refs[j].1 - RESET_VECTOR + 4 <= st.image.len()
}

/// An assembler: the image so far, the cursor, labels and pending references.
pub struct Assembler {
    image: Vec<u8>,
    index: u32,
    labels: Vec<(Vec<u8>, u32)>,
    references: Vec<(Vec<u8>, u32)>,
}

impl View for Assembler {
    type V = AsmState;

    closed spec fn view(&self) -> AsmState {
        AsmState {
            image: self.image@,
            index: self.index as int,
            labels: self.labels@.map_values(|l: (Vec<u8>, u32)| (l.0@, l.1)),
            refs: self.references@.map_values(|r: (Vec<u8>, u32)| (r.0@, r.1 as int)),
        }
    }
}

/// Whether two names are the same bytes.
fn same_name(a: &Vec<u8>, b: &Vec<u8>) -> (r: bool)
    ensures
        r == (a@ == b@),
{
    if a.len() != b.len() {
        return false;
    }
    let mut i: usize = 0;
    while i < a.len()
        invariant
            a@.len() == b@.len(),
            i <= a@.len(),
            forall|k: int| 0 <= k < i ==> a@[k] == b@[k],
        decreases a@.len() - i,
    {
        if a[i] != b[i] {
            return false;
        }
        i += 1;
    }
    assert(a@ =~= b@);
    true
}

impl Assembler {
    pub open spec fn wf(&self) -> bool {
        &&& self@.index <= LOCAL_OFFSET
        &&& self@.image.len() <= LOCAL_OFFSET - RESET_VECTOR
    }

    /// An empty assembly with the cursor at the reset vector.
    pub fn new() -> (r: Self)
        ensures
            r.wf(),
            r@ == initial_state(),
    {
        let r = Assembler { image: Vec::new(), index: RESET_VECTOR, labels: Vec::new(), references: Vec::new() };
        assert(r@.labels =~= Seq::<(Seq<u8>, u32)>::empty());
        assert(r@.refs =~= Seq::<(Seq<u8>, int)>::empty());
        r
    }

    /// The assembled image, to be loaded at the reset vector.
    pub fn data(&self) -> (r: &[u8])
        ensures
            r@ == self@.image,
    {
        self.image.as_slice()
    }

    /// Emits one byte at the cursor.
    fn push_u8(&mut self, value: u8) -> (r: Result<(), AsmError>)
        requires
            old(self).wf(),
        ensures
            final(self).wf(),
            emit(old(self)@, value) matches Ok(s2) ==> r is Ok && final(self)@ == s2,
            emit(old(self)@, value) matches Err(e) ==> (r matches Err(x) && x@ == e),
    {
        if self.index < RESET_VECTOR || self.index >= LOCAL_OFFSET as u32 {
            return Err(AsmError::AddressOutOfRange);
        }
        let k = (self.index - RESET_VECTOR) as usize;
        let next = self.index + 1;
        let ghost old_image = self.image@;
        if k < self.image.len() {
            self.image[k] = value;
        } else {
            while self.image.len() < k
                invariant
                    k < LOCAL_OFFSET - RESET_VECTOR,
                    self.labels == old(self).labels,
                    self.references == old(self).references,
                    self.index == old(self).index,
                    old_image.len() <= self.image@.len() <= k,
                    self.image@ == old_image + Seq::new((self.image@.len() - old_image.len()) as nat, |i: int| 0u8),
                decreases k - self.image@.len(),
            {
                self.image.push(0);
                assert(self.image@ =~= old_image + Seq::new((self.image@.len() - old_image.len()) as nat, |i: int| 0u8));
            }
            self.image.push(value);
        }
        self.index = next;
        proof {
            let want = put(old_image, k as int, value);
            assert(self.image@ =~= want);
        }
        Ok(())
    }

    /// Emits the little-endian bytes of `value`.
    fn push_u32(&mut self, value: u32) -> (r: Result<(), AsmError>)
        requires
            old(self).wf(),
        ensures
            final(self).wf(),
            emit_all(old(self)@, le_bytes(value)) matches Ok(s2) ==> r is Ok && final(self)@ == s2,
            emit_all(old(self)@, le_bytes(value)) matches Err(e) ==> (r matches Err(x) && x@ == e),
    {
        let bytes = [(value % 0x100) as u8, ((value / 0x100) % 0x100) as u8, ((value / 0x1_0000) % 0x100) as u8,
            (value / 0x100_0000) as u8];
        let ghost start = self@;
        let mut i: usize = 0;
        while i < 4
            invariant
                self.wf(),
                start == old(self)@,
                i <= 4,
                bytes@ == le_bytes(value),
                emit_all(start, le_bytes(value).subrange(0, i as int)) == Ok::<AsmState, AsmErrorView>(self@),
            decreases 4 - i,
        {
            let ghost before = self@;
            assert(le_bytes(value).subrange(0, i + 1).drop_last() =~= le_bytes(value).subrange(0, i as int));
            assert(le_bytes(value).subrange(0, i + 1).last() == bytes@[i as int]);
            match self.push_u8(bytes[i]) {
                Ok(()) => {},
                Err(e) => {
                    proof {
                        assert(emit_all(start, le_bytes(value).subrange(0, i + 1)) == emit(before, bytes@[i as int]));
                        lemma_emit_all_stops(start, le_bytes(value), i as int + 1);
                    }
                    return Err(e);
                },
            }
            i += 1;
        }
        assert(le_bytes(value).subrange(0, 4) =~= le_bytes(value));
        Ok(())
    }

    /// Emits the bytes of `text`.
    fn push_bytes(&mut self, text: &Vec<u8>) -> (r: Result<(), AsmError>)
        requires
            old(self).wf(),
        ensures
            final(self).wf(),
            emit_all(old(self)@, text@) matches Ok(s2) ==> r is Ok && final(self)@ == s2,
            emit_all(old(self)@, text@) matches Err(e) ==> (r matches Err(x) && x@ == e),
    {
        let ghost start = self@;
        let mut i: usize = 0;
        while i < text.len()
            invariant
                self.wf(),
                start == old(self)@,
                i <= text@.len(),
                emit_all(start, text@.subrange(0, i as int)) == Ok::<AsmState, AsmErrorView>(self@),
            decreases text@.len() - i,
        {
            assert(text@.subrange(0, i + 1).drop_last() =~= text@.subrange(0, i as int));
            assert(text@.subrange(0, i + 1).last() == text@[i as int]);
            let ghost before = self@;
            match self.push_u8(text[i]) {
                Ok(()) => {},
                Err(e) => {
                    proof {
                        assert(emit_all(start, text@.subrange(0, i + 1)) == emit(before, text@[i as int]));
                        lemma_emit_all_stops(start, text@, i as int + 1);
                    }
                    return Err(e);
                },
            }
            i += 1;
        }
        assert(text@.subrange(0, text@.len() as int) =~= text@);
        Ok(())
    }
}

impl Assembler {
    /// Records a reference to `name` at the cursor and emits a placeholder word.
    fn reference(&mut self, name: &Vec<u8>) -> (r: Result<(), AsmError>)
        requires
            old(self).wf(),
        ensures
            final(self).wf(),
            reference(old(self)@, name@) matches Ok(s2) ==> r is Ok && final(self)@ == s2,
            reference(old(self)@, name@) matches Err(e) ==> (r matches Err(x) && x@ == e),
    {
        let at = self.index;
        self.references.push((name.clone(), at));
        assert(self@.refs =~= old(self)@.refs.push((name@, old(self)@.index)));
        self.push_u32(0)
    }

    /// Carries out one statement.
    fn statement(&mut self, stmt: &Stmt) -> (r: Result<(), AsmError>)
        requires
            old(self).wf(),
        ensures
            final(self).wf(),
            stmt_spec(old(self)@, stmt@) matches Ok(s2) ==> r is Ok && final(self)@ == s2,
            stmt_spec(old(self)@, stmt@) matches Err(e) ==> (r matches Err(x) && x@ == e),
    {
        match stmt {
            Stmt::OriginAbsolute(n) => {
                if *n as usize > LOCAL_OFFSET {
                    return Err(AsmError::AddressOutOfRange);
                }
                self.index = *n;
                Ok(())
            },
            Stmt::OriginRelative(n) => {
                if *n as u64 + self.index as u64 > LOCAL_OFFSET as u64 {
                    return Err(AsmError::AddressOutOfRange);
                }
                self.index = self.index + *n;
                Ok(())
            },
            Stmt::LiteralWord(n) => {
                let ghost st = self@;
                match self.push_u8(OP_LITW) {
                    Ok(()) => {},
                    Err(e) => {
                        proof { lemma_emit_prefix_fails(st, OP_LITW, le_bytes(*n)); }
                        return Err(e);
                    },
                }
                proof { lemma_emit_prefix(st, self@, OP_LITW, le_bytes(*n)); }
                self.push_u32(*n)
            },
            Stmt::LabelAbsolute(name) => {
                self.labels.push((name.clone(), self.index));
                assert(self@.labels =~= old(self)@.labels.push((name@, old(self)@.index as u32)));
                Ok(())
            },
            Stmt::ReferenceAbsolute(name) => {
                match self.push_u8(OP_LITW) {
                    Ok(()) => {},
                    Err(e) => return Err(e),
                }
                self.reference(name)
            },
            Stmt::Operation(op) => self.push_u8(op.byte()),
            Stmt::String(text) => self.push_bytes(text),
            Stmt::RawByte(b) => self.push_u8(*b),
            Stmt::RawWord(n) => self.push_u32(*n),
            Stmt::RawReferenceAbsolute(name) => self.reference(name),
        }
    }

    /// Carries out the statements of `ast` in order, stopping at the first failure.
    fn parse(&mut self, ast: &[Stmt]) -> (r: Result<(), AsmError>)
        requires
            old(self).wf(),
        ensures
            final(self).wf(),
            stmts_spec(old(self)@, stmts_view(ast@), ast@.len()) matches Ok(s2) ==> r is Ok && final(self)@ == s2,
            stmts_spec(old(self)@, stmts_view(ast@), ast@.len()) matches Err(e) ==> (r matches Err(x) && x@ == e),
    {
        let ghost ss = stmts_view(ast@);
        let mut i: usize = 0;
        while i < ast.len()
            invariant
                self.wf(),
                ss == stmts_view(ast@),
                i <= ast@.len(),
                stmts_spec(old(self)@, ss, i as nat) == Ok::<AsmState, AsmErrorView>(self@),
            decreases ast@.len() - i,
        {
            assert(ss[i as int] == ast@[i as int]@);
            match self.statement(&ast[i]) {
                Ok(()) => {},
                Err(e) => {
                    proof { lemma_stmts_stop(old(self)@, ss, (i + 1) as nat, ast@.len() as nat); }
                    return Err(e);
                },
            }
            i += 1;
        }
        Ok(())
    }

    /// The address of the last definition of `name`.
    fn find_label(&self, name: &Vec<u8>) -> (r: Option<u32>)
        ensures
            r == lookup(self@.labels, name@),
    {
        let mut i = self.labels.len();
        assert(self@.labels.subrange(0, i as int) =~= self@.labels);
        while i > 0
            invariant
                i <= self@.labels.len(),
                lookup(self@.labels, name@) == lookup(self@.labels.subrange(0, i as int), name@),
            decreases i,
        {
            let ghost sub = self@.labels.subrange(0, i as int);
            assert(sub.drop_last() =~= self@.labels.subrange(0, i - 1));
            assert(sub.last() == (self.labels@[i - 1].0@, self.labels@[i - 1].1));
            if same_name(&self.labels[i - 1].0, name) {
                return Some(self.labels[i - 1].1);
            }
            i -= 1;
        }
        None
    }

    /// Patches every pending reference with its label's address.
    fn resolve(&mut self) -> (r: Result<(), AsmError>)
        requires
            old(self).wf(),
        ensures
            final(self).wf(),
            patch(old(self)@.image, old(self)@.labels, old(self)@.refs, old(self)@.refs.len()) matches Ok(img)
                ==> r is Ok && final(self)@ == (AsmState { image: img, ..old(self)@ }),
            patch(old(self)@.image, old(self)@.labels, old(self)@.refs, old(self)@.refs.len()) matches Err(e)
                ==> (r matches Err(x) && x@ == e),
    {
        let ghost st = self@;
        let mut k: usize = 0;
        while k < self.references.len()
            invariant
                self.wf(),
                st == old(self)@,
                self@ == (AsmState { image: self@.image, ..st }),
                k <= st.refs.len(),
                patch(st.image, st.labels, st.refs, k as nat) == Ok::<Seq<u8>, AsmErrorView>(self@.image),
            decreases st.refs.len() - k,
        {
            let at = self.references[k].1;
            let found = self.find_label(&self.references[k].0);
            assert(st.refs[k as int] == (self.references@[k as int].0@, self.references@[k as int].1 as int));
            match found {
                None => {
                    let name = self.references[k].0.clone();
                    proof { lemma_patch_stops(st.image, st.labels, st.refs, (k + 1) as nat, st.refs.len()); }
                    return Err(AsmError::UndefinedLabel(name));
                },
                Some(a) => {
                    if at >= RESET_VECTOR && ((at - RESET_VECTOR) as usize) + 4 <= self.image.len() {
                        let o = (at - RESET_VECTOR) as usize;
                        self.image[o] = (a % 0x100) as u8;
                        self.image[o + 1] = ((a / 0x100) % 0x100) as u8;
                        self.image[o + 2] = ((a / 0x1_0000) % 0x100) as u8;
                        self.image[o + 3] = (a / 0x100_0000) as u8;
                    }
                },
            }
            k += 1;
        }
        Ok(())
    }

    /// Assembles `ast`: carries out its statements and then patches every
    /// reference with the address of its label.
    pub fn assemble(&mut self, ast: &[Stmt]) -> (r: Result<(), AsmError>)
        requires
            old(self).wf(),
        ensures
            final(self).wf(),
            stmts_spec(old(self)@, stmts_view(ast@), ast@.len()) matches Err(e) ==> (r matches Err(x) && x@ == e),
            stmts_spec(old(self)@, stmts_view(ast@), ast@.len()) matches Ok(st) ==> {
                &&& patch(st.image, st.labels, st.refs, st.refs.len()) matches Ok(img)
                    ==> r is Ok && final(self)@.image == img
                &&& patch(st.image, st.labels, st.refs, st.refs.len()) matches Err(e)
                    ==> (r matches Err(x) && x@ == e)
            },
    {
        match self.parse(ast) {
            Ok(()) => {},
            Err(e) => return Err(e),
        }
        self.resolve()
    }

    /// Hands over the assembled image.
    pub fn into_image(self) -> (r: Vec<u8>)
        ensures
            r@ == self@.image,
    {
        self.image
    }
}

/// Assembles the source text `src` into an image to be loaded at the reset vector.
pub fn assemble_source(src: &str) -> (r: Result<Vec<u8>, AsmError>)
    ensures
        parse_from(lex_from(src.spec_bytes(), 0), 0) matches Err(e) ==> (r matches Err(x) && x@ == e),
        parse_from(lex_from(src.spec_bytes(), 0), 0) matches Ok(ss) ==> {
            &&& assemble_spec(ss) matches Ok(img) ==> (r matches Ok(v) && v@ == img)
            &&& assemble_spec(ss) matches Err(e) ==> (r matches Err(x) && x@ == e)
        },
{
    let tokens = tokenize(src);
    let ast = match parse(tokens.as_slice()) {
        Ok(ast) => ast,
        Err(e) => return Err(e),
    };
    let mut assembler = Assembler::new();
    match assembler.assemble(ast.as_slice()) {
        Ok(()) => Ok(assembler.into_image()),
        Err(e) => Err(e),
    }
}

/// Emitting one byte and then `bs` is emitting `[b] + bs`.
proof fn lemma_emit_prefix(st: AsmState, s1: AsmState, b: u8, bs: Seq<u8>)
    requires
        emit(st, b) == Ok::<AsmState, AsmErrorView>(s1),
    ensures
        emit_all(st, seq![b] + bs) == emit_all(s1, bs),
    decreases bs.len(),
{
    if bs.len() == 0 {
        assert((seq![b] + bs).drop_last() =~= Seq::<u8>::empty());
        assert(emit_all(st, Seq::<u8>::empty()) == Ok::<AsmState, AsmErrorView>(st));
    } else {
        lemma_emit_prefix(st, s1, b, bs.drop_last());
        assert((seq![b] + bs).drop_last() =~= seq![b] + bs.drop_last());
    }
}

/// When the first byte cannot be emitted, neither can `[b] + bs`.
proof fn lemma_emit_prefix_fails(st: AsmState, b: u8, bs: Seq<u8>)
    requires
        emit(st, b) is Err,
    ensures
        emit_all(st, seq![b] + bs) == emit(st, b),
    decreases bs.len(),
{
    if bs.len() == 0 {
        assert((seq![b] + bs).drop_last() =~= Seq::<u8>::empty());
        assert(emit_all(st, Seq::<u8>::empty()) == Ok::<AsmState, AsmErrorView>(st));
    } else {
        lemma_emit_prefix_fails(st, b, bs.drop_last());
        assert((seq![b] + bs).drop_last() =~= seq![b] + bs.drop_last());
    }
}

/// Once a statement fails, the later ones change nothing about the outcome.
proof fn lemma_stmts_stop(st: AsmState, ss: Seq<StmtView>, a: nat, b: nat)
    requires
        stmts_spec(st, ss, a) is Err,
        a <= b,
    ensures
        stmts_spec(st, ss, b) == stmts_spec(st, ss, a),
    decreases b - a,
{
    if a < b {
        lemma_stmts_stop(st, ss, a, (b - 1) as nat);
    }
}

/// Once a reference fails to resolve, the later ones change nothing about the outcome.
proof fn lemma_patch_stops(img: Seq<u8>, labels: Seq<(Seq<u8>, u32)>, refs: Seq<(Seq<u8>, int)>, a: nat, b: nat)
    requires
        patch(img, labels, refs, a) is Err,
        a <= b,
    ensures
        patch(img, labels, refs, b) == patch(img, labels, refs, a),
    decreases b - a,
{
    if a < b {
        lemma_patch_stops(img, labels, refs, a, (b - 1) as nat);
    }
}

/// Once emission fails, emitting more bytes fails the same way.
proof fn lemma_emit_all_stops(st: AsmState, bs: Seq<u8>, k: int)
    requires
        0 <= k <= bs.len(),
        emit_all(st, bs.subrange(0, k)) is Err,
    ensures
        emit_all(st, bs) == emit_all(st, bs.subrange(0, k)),
    decreases bs.len() - k,
{
    if k < bs.len() {
        assert(bs.subrange(0, k + 1).drop_last() =~= bs.subrange(0, k));
        lemma_emit_all_stops(st, bs, k + 1);
    } else {
        assert(bs.subrange(0, k) =~= bs);
    }
}

/// Whether two 4-byte slots share a byte.
pub open spec fn slots_overlap(a: int, b: int) -> bool {
    a < b + 4 && b < a + 4
}

/// Reference `j` is not overwritten by any later reference among the first `k`.
pub open spec fn slot_kept(refs: Seq<(Seq<u8>, int)>, j: int, k: int) -> bool {
    forall|m: int| j < m < k ==> !slots_overlap(#[trigger] refs[m].1, refs[j].1)
}

proof fn lemma_emit_grows(st: AsmState, v: u8)
    requires
        emit(st, v) is Ok,
    ensures
        ({
            let s2 = emit(st, v)->Ok_0;
            &&& s2.image.len() >= st.image.len()
            &&& s2.image.len() >= st.index - RESET_VECTOR + 1
            &&& s2.index == st.index + 1
            &&& s2.refs == st.refs
            &&& s2.labels == st.labels
        }),
{
}

proof fn lemma_emit_all_grows(st: AsmState, bs: Seq<u8>)
    requires
        emit_all(st, bs) is Ok,
    ensures
        ({
            let s2 = emit_all(st, bs)->Ok_0;
            &&& s2.image.len() >= st.image.len()
            &&& bs.len() > 0 ==> s2.image.len() >= st.index - RESET_VECTOR + bs.len()
            &&& s2.index == st.index + bs.len()
            &&& s2.refs == st.refs
            &&& s2.labels == st.labels
        }),
    decreases bs.len(),
{
    if bs.len() > 0 {
        lemma_emit_all_grows(st, bs.drop_last());
        lemma_emit_grows(emit_all(st, bs.drop_last())->Ok_0, bs.last());
    }
}

proof fn lemma_stmt_refs_in_image(st: AsmState, s: StmtView)
    requires
        refs_in_image(st),
        stmt_spec(st, s) is Ok,
    ensures
        refs_in_image(stmt_spec(st, s)->Ok_0),
{
    match s {
        StmtView::LiteralWord(n) => { lemma_emit_all_grows(st, seq![OP_LITW] + le_bytes(n)); },
        StmtView::ReferenceAbsolute(name) => {
            lemma_emit_grows(st, OP_LITW);
            let s1 = emit(st, OP_LITW)->Ok_0;
            let s1r = AsmState { refs: s1.refs.push((name, s1.index)), ..s1 };
            lemma_emit_all_grows(s1r, le_bytes(0));
            assert(s1.index >= RESET_VECTOR);
        },
        StmtView::Operation(op) => { lemma_emit_grows(st, opcode_byte(op)); },
        StmtView::Text(x) => { lemma_emit_all_grows(st, x); },
        StmtView::RawByte(b) => { lemma_emit_grows(st, b); },
        StmtView::RawWord(n) => { lemma_emit_all_grows(st, le_bytes(n)); },
        StmtView::RawReferenceAbsolute(name) => {
            let sr = AsmState { refs: st.refs.push((name, st.index)), ..st };
            lemma_emit_all_grows(sr, le_bytes(0));
            assert(emit_all(sr, le_bytes(0)) is Ok);
            if st.index < RESET_VECTOR {
                // The first byte of the placeholder could not have been emitted.
                assert(le_bytes(0).drop_last().drop_last().drop_last().drop_last() =~= Seq::<u8>::empty());
                reveal_with_fuel(emit_all, 5);
                assert(false);
            }
        },
        _ => {},
    }
}

proof fn lemma_stmts_refs_in_image(st: AsmState, ss: Seq<StmtView>, k: nat)
    requires
        refs_in_image(st),
        stmts_spec(st, ss, k) is Ok,
    ensures
        refs_in_image(stmts_spec(st, ss, k)->Ok_0),
    decreases k,
{
    if k > 0 {
        lemma_stmts_refs_in_image(st, ss, (k - 1) as nat);
        lemma_stmt_refs_in_image(stmts_spec(st, ss, (k - 1) as nat)->Ok_0, ss[k - 1]);
    }
}

proof fn lemma_patch(img: Seq<u8>, labels: Seq<(Seq<u8>, u32)>, refs: Seq<(Seq<u8>, int)>, k: nat)
    requires
        k <= refs.len(),
        patch(img, labels, refs, k) is Ok,
        forall|j: int| 0 <= j < refs.len() ==> RESET_VECTOR <= #[trigger] refs[j].1
            && refs[j].1 - RESET_VECTOR + 4 <= img.len(),
    ensures
        patch(img, labels, refs, k)->Ok_0.len() == img.len(),
        forall|j: int| 0 <= j < k ==> #[trigger] lookup(labels, refs[j].0) is Some,
        forall|j: int| 0 <= j < k && slot_kept(refs, j, k as int) ==>
            word_at(patch(img, labels, refs, k)->Ok_0, #[trigger] refs[j].1 - RESET_VECTOR)
                == lookup(labels, refs[j].0)->Some_0,
    decreases k,
{
    if k > 0 {
        let p = (k - 1) as nat;
        lemma_patch(img, labels, refs, p);
        let prev = patch(img, labels, refs, p)->Ok_0;
        let a = lookup(labels, refs[p as int].0)->Some_0;
        let o = refs[p as int].1 - RESET_VECTOR;
        let next = patch(img, labels, refs, k)->Ok_0;
        assert(next == store_word(prev, o, a));
        lemma_word_round_trip(prev, o, a);
        assert forall|j: int| 0 <= j < k && slot_kept(refs, j, k as int) implies
            word_at(next, #[trigger] refs[j].1 - RESET_VECTOR) == lookup(labels, refs[j].0)->Some_0 by {
            if j < p {
                assert(slot_kept(refs, j, p as int));
                assert(!slots_overlap(refs[p as int].1, refs[j].1));
                let q = refs[j].1 - RESET_VECTOR;
                assert(next[q] == prev[q] && next[q + 1] == prev[q + 1] && next[q + 2] == prev[q + 2]
                    && next[q + 3] == prev[q + 3]);
            }
        }
    }
}

/// Every reference in a source that assembles resolves: the four
/// little-endian bytes at its place in the image hold the address of the
/// label's last definition. A reference whose place a later reference
/// overwrites (the cursor was moved back over it) holds the later one instead,
/// so the law speaks of references that no later one overlaps.
pub proof fn law_references_resolve(ss: Seq<StmtView>)
    requires
        assemble_spec(ss) is Ok,
    ensures
        ({
            let st = stmts_spec(initial_state(), ss, ss.len())->Ok_0;
            let img = assemble_spec(ss)->Ok_0;
            forall|j: int| 0 <= j < st.refs.len() && slot_kept(st.refs, j, st.refs.len() as int) ==> {
                &&& lookup(st.labels, #[trigger] st.refs[j].0) is Some
                &&& RESET_VECTOR <= st.refs[j].1
                &&& st.refs[j].1 - RESET_VECTOR + 4 <= img.len()
                &&& word_at(img, st.refs[j].1 - RESET_VECTOR) == lookup(st.labels, st.refs[j].0)->Some_0
            }
        }),
{
    lemma_stmts_refs_in_image(initial_state(), ss, ss.len());
    let st = stmts_spec(initial_state(), ss, ss.len())->Ok_0;
    lemma_patch(st.image, st.labels, st.refs, st.refs.len());
}

} // verus!
