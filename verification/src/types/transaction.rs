//! Transactions and the identifier that each one carries.

use vstd::prelude::*;
use crate::crypto::bytes::{
    lemma_opt_text_prefix, lemma_split, lemma_text_prefix, lemma_u64_be_prefix, opt_text_field,
    opt_text_fits, push_bytes, push_opt_text, push_text, push_u64_be, text_field, text_fits, u64_be,
};
use crate::crypto::hash::{hash_hex, hash_text};

verus! {

/// The kind of a transaction.
#[derive(Debug, Clone, Copy, PartialEq, Eq, Structural)]
pub enum TransactionType {
    Coinbase,
    Transfer,
    CreateProject,
    FundProject,
}

/// The block reward paid to a miner.
#[derive(Debug, Clone)]
pub struct CoinbaseData {
    pub reward: u64,
    pub block_height: u64,
}

/// A plain transfer of coins.
#[derive(Debug, Clone)]
pub struct TransferData {
    pub amount: u64,
    pub message: String,
}

/// The creation of a crowdfunding project.
#[derive(Debug, Clone)]
pub struct CreateProjectData {
    pub project_id: String,
    pub name: String,
    pub description: String,
    pub goal_amount: u64,
    pub deadline_timestamp: u64,
    pub creator_wallet: String,
}

/// A contribution to a crowdfunding project.
#[derive(Debug, Clone)]
pub struct FundProjectData {
    pub project_id: String,
    pub amount: u64,
    pub backer_note: String,
}

/// The payload of a transaction.
#[derive(Debug, Clone)]
pub enum TransactionData {
    Coinbase(CoinbaseData),
    Transfer(TransferData),
    CreateProject(CreateProjectData),
    FundProject(FundProjectData),
}

/// A transaction; `id` is the hash of every other field but the signature.
#[derive(Debug, Clone)]
pub struct Transaction {
    pub id: String,
    pub tx_type: TransactionType,
    pub from: Option<String>,
    pub to: Option<String>,
    pub data: TransactionData,
    pub timestamp: u64,
    pub signature: Option<String>,
}

/// The view of a payload: its texts as character sequences.
pub enum TransactionDataView {
    Coinbase { reward: u64, block_height: u64 },
    Transfer { amount: u64, message: Seq<char> },
    CreateProject {
        project_id: Seq<char>,
        name: Seq<char>,
        description: Seq<char>,
        goal_amount: u64,
        deadline_timestamp: u64,
        creator_wallet: Seq<char>,
    },
    FundProject { project_id: Seq<char>, amount: u64, backer_note: Seq<char> },
}

/// The view of a transaction: its texts as character sequences.
pub struct TransactionView {
    pub id: Seq<char>,
    pub tx_type: TransactionType,
    pub from: Option<Seq<char>>,
    pub to: Option<Seq<char>>,
    pub data: TransactionDataView,
    pub timestamp: u64,
    pub signature: Option<Seq<char>>,
}

impl View for TransactionData {
    type V = TransactionDataView;

    open spec fn view(&self) -> TransactionDataView {
        match self {
            TransactionData::Coinbase(c) => TransactionDataView::Coinbase {
                reward: c.reward,
                block_height: c.block_height,
            },
            TransactionData::Transfer(t) => TransactionDataView::Transfer {
                amount: t.amount,
                message: t.message@,
            },
            TransactionData::CreateProject(p) => TransactionDataView::CreateProject {
                project_id: p.project_id@,
                name: p.name@,
                description: p.description@,
                goal_amount: p.goal_amount,
                deadline_timestamp: p.deadline_timestamp,
                creator_wallet: p.creator_wallet@,
            },
            TransactionData::FundProject(f) => TransactionDataView::FundProject {
                project_id: f.project_id@,
                amount: f.amount,
                backer_note: f.backer_note@,
            },
        }
    }
}

impl View for Transaction {
    type V = TransactionView;

    open spec fn view(&self) -> TransactionView {
        TransactionView {
            id: self.id@,
            tx_type: self.tx_type,
            from: opt_view(self.from),
            to: opt_view(self.to),
            data: self.data@,
            timestamp: self.timestamp,
            signature: opt_view(self.signature),
        }
    }
}

fn copy_opt_text(s: &Option<String>) -> (r: Option<String>)
    ensures
        opt_view(r) == opt_view(*s),
{
    match s {
        Some(t) => Some(t.clone()),
        None => None,
    }
}

/// The tag byte of a transaction kind.
pub open spec fn type_tag(t: TransactionType) -> u8 {
    match t {
        TransactionType::Coinbase => 0,
        TransactionType::Transfer => 1,
        TransactionType::CreateProject => 2,
        TransactionType::FundProject => 3,
    }
}

/// The view of an optional text.
pub open spec fn opt_view(s: Option<String>) -> Option<Seq<char>> {
    match s {
        None => None,
        Some(t) => Some(t@),
    }
}

/// The canonical bytes of a payload: a tag byte, then its fields in order.
pub open spec fn data_bytes(d: TransactionData) -> Seq<u8> {
    match d {
        TransactionData::Coinbase(c) => seq![0u8] + (u64_be(c.reward) + u64_be(c.block_height)),
        TransactionData::Transfer(t) => seq![1u8] + (u64_be(t.amount) + text_field(t.message@)),
        TransactionData::CreateProject(p) => seq![2u8] + (text_field(p.project_id@) + (text_field(
            p.name@,
        ) + (text_field(p.description@) + (u64_be(p.goal_amount) + (u64_be(p.deadline_timestamp)
            + text_field(p.creator_wallet@)))))),
        TransactionData::FundProject(f) => seq![3u8] + (text_field(f.project_id@) + (u64_be(f.amount)
            + text_field(f.backer_note@))),
    }
}

/// The bytes that a transaction identifier hashes: kind, sender, receiver,
/// payload and timestamp (the identifier itself and the signature stay out).
pub open spec fn tx_preimage(tx: Transaction) -> Seq<u8> {
    seq![type_tag(tx.tx_type)] + (opt_text_field(opt_view(tx.from)) + (opt_text_field(
        opt_view(tx.to),
    ) + (data_bytes(tx.data) + u64_be(tx.timestamp))))
}

/// The identifier that a transaction must carry.
pub open spec fn tx_id(tx: Transaction) -> Seq<char> {
    hash_text(tx_preimage(tx))
}

/// Whether every text of a payload can be counted in 64 bits.
pub open spec fn data_fits(d: TransactionData) -> bool {
    match d {
        TransactionData::Coinbase(_) => true,
        TransactionData::Transfer(t) => text_fits(t.message@),
        TransactionData::CreateProject(p) => text_fits(p.project_id@) && text_fits(p.name@)
            && text_fits(p.description@) && text_fits(p.creator_wallet@),
        TransactionData::FundProject(f) => text_fits(f.project_id@) && text_fits(f.backer_note@),
    }
}

/// Whether every text of a transaction that its identifier covers can be
/// counted in 64 bits.
pub open spec fn tx_fits(tx: Transaction) -> bool {
    opt_text_fits(opt_view(tx.from)) && opt_text_fits(opt_view(tx.to)) && data_fits(tx.data)
}

proof fn lemma_assoc(a: Seq<u8>, b: Seq<u8>, c: Seq<u8>)
    ensures
        (a + b) + c == a + (b + c),
{
    assert((a + b) + c =~= a + (b + c));
}

proof fn lemma_coinbase_fields(c1: CoinbaseData, c2: CoinbaseData, r1: Seq<u8>, r2: Seq<u8>)
    requires
        (u64_be(c1.reward) + u64_be(c1.block_height)) + r1 == (u64_be(c2.reward) + u64_be(
            c2.block_height,
        )) + r2,
    ensures
        c1.reward == c2.reward,
        c1.block_height == c2.block_height,
        r1 == r2,
{
    lemma_assoc(u64_be(c1.reward), u64_be(c1.block_height), r1);
    lemma_assoc(u64_be(c2.reward), u64_be(c2.block_height), r2);
    lemma_u64_be_prefix(c1.reward, c2.reward, u64_be(c1.block_height) + r1, u64_be(c2.block_height) + r2);
    lemma_u64_be_prefix(c1.block_height, c2.block_height, r1, r2);
}

proof fn lemma_transfer_fields(t1: TransferData, t2: TransferData, r1: Seq<u8>, r2: Seq<u8>)
    requires
        (u64_be(t1.amount) + text_field(t1.message@)) + r1 == (u64_be(t2.amount) + text_field(
            t2.message@,
        )) + r2,
        text_fits(t1.message@),
        text_fits(t2.message@),
    ensures
        t1.amount == t2.amount,
        t1.message@ == t2.message@,
        r1 == r2,
{
    lemma_assoc(u64_be(t1.amount), text_field(t1.message@), r1);
    lemma_assoc(u64_be(t2.amount), text_field(t2.message@), r2);
    lemma_u64_be_prefix(t1.amount, t2.amount, text_field(t1.message@) + r1, text_field(t2.message@) + r2);
    lemma_text_prefix(t1.message@, t2.message@, r1, r2);
}

proof fn lemma_fund_fields(f1: FundProjectData, f2: FundProjectData, r1: Seq<u8>, r2: Seq<u8>)
    requires
        (text_field(f1.project_id@) + (u64_be(f1.amount) + text_field(f1.backer_note@))) + r1 == (
        text_field(f2.project_id@) + (u64_be(f2.amount) + text_field(f2.backer_note@))) + r2,
        text_fits(f1.project_id@),
        text_fits(f2.project_id@),
        text_fits(f1.backer_note@),
        text_fits(f2.backer_note@),
    ensures
        f1.project_id@ == f2.project_id@,
        f1.amount == f2.amount,
        f1.backer_note@ == f2.backer_note@,
        r1 == r2,
{
    let t1 = u64_be(f1.amount) + text_field(f1.backer_note@);
    let t2 = u64_be(f2.amount) + text_field(f2.backer_note@);
    lemma_assoc(text_field(f1.project_id@), t1, r1);
    lemma_assoc(text_field(f2.project_id@), t2, r2);
    lemma_text_prefix(f1.project_id@, f2.project_id@, t1 + r1, t2 + r2);
    lemma_assoc(u64_be(f1.amount), text_field(f1.backer_note@), r1);
    lemma_assoc(u64_be(f2.amount), text_field(f2.backer_note@), r2);
    lemma_u64_be_prefix(f1.amount, f2.amount, text_field(f1.backer_note@) + r1, text_field(f2.backer_note@) + r2);
    lemma_text_prefix(f1.backer_note@, f2.backer_note@, r1, r2);
}

proof fn lemma_numbers_and_text(
    g1: u64,
    d1: u64,
    w1: Seq<char>,
    g2: u64,
    d2: u64,
    w2: Seq<char>,
    r1: Seq<u8>,
    r2: Seq<u8>,
)
    requires
        (u64_be(g1) + (u64_be(d1) + text_field(w1))) + r1 == (u64_be(g2) + (u64_be(d2) + text_field(
            w2,
        ))) + r2,
        text_fits(w1),
        text_fits(w2),
    ensures
        g1 == g2,
        d1 == d2,
        w1 == w2,
        r1 == r2,
{
    lemma_assoc(u64_be(g1), u64_be(d1) + text_field(w1), r1);
    lemma_assoc(u64_be(g2), u64_be(d2) + text_field(w2), r2);
    lemma_u64_be_prefix(g1, g2, (u64_be(d1) + text_field(w1)) + r1, (u64_be(d2) + text_field(w2)) + r2);
    lemma_assoc(u64_be(d1), text_field(w1), r1);
    lemma_assoc(u64_be(d2), text_field(w2), r2);
    lemma_u64_be_prefix(d1, d2, text_field(w1) + r1, text_field(w2) + r2);
    lemma_text_prefix(w1, w2, r1, r2);
}

proof fn lemma_project_fields(p1: CreateProjectData, p2: CreateProjectData, r1: Seq<u8>, r2: Seq<u8>)
    requires
        (text_field(p1.project_id@) + (text_field(p1.name@) + (text_field(p1.description@) + (u64_be(
            p1.goal_amount,
        ) + (u64_be(p1.deadline_timestamp) + text_field(p1.creator_wallet@)))))) + r1 == (
        text_field(p2.project_id@) + (text_field(p2.name@) + (text_field(p2.description@) + (u64_be(
            p2.goal_amount,
        ) + (u64_be(p2.deadline_timestamp) + text_field(p2.creator_wallet@)))))) + r2,
        text_fits(p1.project_id@) && text_fits(p1.name@) && text_fits(p1.description@) && text_fits(
            p1.creator_wallet@,
        ),
        text_fits(p2.project_id@) && text_fits(p2.name@) && text_fits(p2.description@) && text_fits(
            p2.creator_wallet@,
        ),
    ensures
        p1.project_id@ == p2.project_id@,
        p1.name@ == p2.name@,
        p1.description@ == p2.description@,
        p1.goal_amount == p2.goal_amount,
        p1.deadline_timestamp == p2.deadline_timestamp,
        p1.creator_wallet@ == p2.creator_wallet@,
        r1 == r2,
{
    let n1 = u64_be(p1.goal_amount) + (u64_be(p1.deadline_timestamp) + text_field(p1.creator_wallet@));
    let n2 = u64_be(p2.goal_amount) + (u64_be(p2.deadline_timestamp) + text_field(p2.creator_wallet@));
    let e1 = text_field(p1.description@) + n1;
    let e2 = text_field(p2.description@) + n2;
    let m1 = text_field(p1.name@) + e1;
    let m2 = text_field(p2.name@) + e2;
    lemma_assoc(text_field(p1.project_id@), m1, r1);
    lemma_assoc(text_field(p2.project_id@), m2, r2);
    lemma_text_prefix(p1.project_id@, p2.project_id@, m1 + r1, m2 + r2);
    lemma_assoc(text_field(p1.name@), e1, r1);
    lemma_assoc(text_field(p2.name@), e2, r2);
    lemma_text_prefix(p1.name@, p2.name@, e1 + r1, e2 + r2);
    lemma_assoc(text_field(p1.description@), n1, r1);
    lemma_assoc(text_field(p2.description@), n2, r2);
    lemma_text_prefix(p1.description@, p2.description@, n1 + r1, n2 + r2);
    lemma_numbers_and_text(
        p1.goal_amount,
        p1.deadline_timestamp,
        p1.creator_wallet@,
        p2.goal_amount,
        p2.deadline_timestamp,
        p2.creator_wallet@,
        r1,
        r2,
    );
}

/// The canonical bytes of a payload determine it: two payloads whose bytes,
/// each followed by anything, agree are the same payload, followed by the
/// same rest.  Every field, amounts included, is in the bytes.
pub proof fn lemma_data_bytes_determine_payload(
    d1: TransactionData,
    d2: TransactionData,
    r1: Seq<u8>,
    r2: Seq<u8>,
)
    requires
        data_bytes(d1) + r1 == data_bytes(d2) + r2,
        data_fits(d1),
        data_fits(d2),
    ensures
        d1@ == d2@,
        r1 == r2,
{
    let g1: u8 = data_bytes(d1)[0];
    let g2: u8 = data_bytes(d2)[0];
    let b1 = data_bytes(d1).drop_first();
    let b2 = data_bytes(d2).drop_first();
    assert(data_bytes(d1) =~= seq![g1] + b1);
    assert(data_bytes(d2) =~= seq![g2] + b2);
    lemma_assoc(seq![g1], b1, r1);
    lemma_assoc(seq![g2], b2, r2);
    lemma_split(seq![g1], b1 + r1, seq![g2], b2 + r2);
    assert(seq![g1][0] == seq![g2][0]);
    match d1 {
        TransactionData::Coinbase(c1) => {
            assert(d2 is Coinbase);
            let c2 = d2->Coinbase_0;
            assert(b1 =~= u64_be(c1.reward) + u64_be(c1.block_height));
            assert(b2 =~= u64_be(c2.reward) + u64_be(c2.block_height));
            lemma_coinbase_fields(c1, c2, r1, r2);
        },
        TransactionData::Transfer(t1) => {
            assert(d2 is Transfer);
            let t2 = d2->Transfer_0;
            assert(b1 =~= u64_be(t1.amount) + text_field(t1.message@));
            assert(b2 =~= u64_be(t2.amount) + text_field(t2.message@));
            lemma_transfer_fields(t1, t2, r1, r2);
        },
        TransactionData::CreateProject(p1) => {
            assert(d2 is CreateProject);
            let p2 = d2->CreateProject_0;
            assert(b1 =~= text_field(p1.project_id@) + (text_field(p1.name@) + (text_field(p1.description@) + (
                u64_be(p1.goal_amount) + (u64_be(p1.deadline_timestamp) + text_field(p1.creator_wallet@))))));
            assert(b2 =~= text_field(p2.project_id@) + (text_field(p2.name@) + (text_field(p2.description@) + (
                u64_be(p2.goal_amount) + (u64_be(p2.deadline_timestamp) + text_field(p2.creator_wallet@))))));
            lemma_project_fields(p1, p2, r1, r2);
        },
        TransactionData::FundProject(f1) => {
            assert(d2 is FundProject);
            let f2 = d2->FundProject_0;
            assert(b1 =~= text_field(f1.project_id@) + (u64_be(f1.amount) + text_field(f1.backer_note@)));
            assert(b2 =~= text_field(f2.project_id@) + (u64_be(f2.amount) + text_field(f2.backer_note@)));
            lemma_fund_fields(f1, f2, r1, r2);
        },
    }
}

/// The bytes that an identifier hashes determine every field of the
/// transaction but the identifier and the signature: two transactions with
/// the same preimage have the same kind, sender, receiver, payload and time.
/// So changing any of these, an amount say, changes the preimage.
pub proof fn lemma_preimage_determines_transaction(t1: Transaction, t2: Transaction)
    requires
        tx_preimage(t1) == tx_preimage(t2),
        tx_fits(t1),
        tx_fits(t2),
    ensures
        t1.tx_type == t2.tx_type,
        opt_view(t1.from) == opt_view(t2.from),
        opt_view(t1.to) == opt_view(t2.to),
        t1.data@ == t2.data@,
        t1.timestamp == t2.timestamp,
{
    let ts1 = u64_be(t1.timestamp);
    let ts2 = u64_be(t2.timestamp);
    let d1 = data_bytes(t1.data) + ts1;
    let d2 = data_bytes(t2.data) + ts2;
    let o1 = opt_text_field(opt_view(t1.to)) + d1;
    let o2 = opt_text_field(opt_view(t2.to)) + d2;
    let f1 = opt_text_field(opt_view(t1.from)) + o1;
    let f2 = opt_text_field(opt_view(t2.from)) + o2;
    lemma_split(seq![type_tag(t1.tx_type)], f1, seq![type_tag(t2.tx_type)], f2);
    assert(seq![type_tag(t1.tx_type)][0] == seq![type_tag(t2.tx_type)][0]);
    lemma_opt_text_prefix(opt_view(t1.from), opt_view(t2.from), o1, o2);
    lemma_opt_text_prefix(opt_view(t1.to), opt_view(t2.to), d1, d2);
    lemma_data_bytes_determine_payload(t1.data, t2.data, ts1, ts2);
    assert(ts1 =~= ts1 + Seq::<u8>::empty());
    assert(ts2 =~= ts2 + Seq::<u8>::empty());
    lemma_u64_be_prefix(t1.timestamp, t2.timestamp, Seq::empty(), Seq::empty());
}

impl TransactionData {
    /// A copy with the same view.
    pub fn duplicate(&self) -> (r: TransactionData)
        ensures
            r@ == self@,
    {
        match self {
            TransactionData::Coinbase(c) => TransactionData::Coinbase(
                CoinbaseData { reward: c.reward, block_height: c.block_height },
            ),
            TransactionData::Transfer(t) => TransactionData::Transfer(
                TransferData { amount: t.amount, message: t.message.clone() },
            ),
            TransactionData::CreateProject(p) => TransactionData::CreateProject(
                CreateProjectData {
                    project_id: p.project_id.clone(),
                    name: p.name.clone(),
                    description: p.description.clone(),
                    goal_amount: p.goal_amount,
                    deadline_timestamp: p.deadline_timestamp,
                    creator_wallet: p.creator_wallet.clone(),
                },
            ),
            TransactionData::FundProject(f) => TransactionData::FundProject(
                FundProjectData {
                    project_id: f.project_id.clone(),
                    amount: f.amount,
                    backer_note: f.backer_note.clone(),
                },
            ),
        }
    }

    /// The canonical bytes of the payload.
    pub fn to_bytes(&self) -> (bytes: Vec<u8>)
        ensures
            bytes@ == data_bytes(*self),
    {
        let mut out: Vec<u8> = Vec::new();
        match self {
            TransactionData::Coinbase(c) => {
                out.push(0u8);
                push_u64_be(&mut out, c.reward);
                push_u64_be(&mut out, c.block_height);
            },
            TransactionData::Transfer(t) => {
                out.push(1u8);
                push_u64_be(&mut out, t.amount);
                push_text(&mut out, t.message.as_str());
            },
            TransactionData::CreateProject(p) => {
                out.push(2u8);
                push_text(&mut out, p.project_id.as_str());
                push_text(&mut out, p.name.as_str());
                push_text(&mut out, p.description.as_str());
                push_u64_be(&mut out, p.goal_amount);
                push_u64_be(&mut out, p.deadline_timestamp);
                push_text(&mut out, p.creator_wallet.as_str());
            },
            TransactionData::FundProject(f) => {
                out.push(3u8);
                push_text(&mut out, f.project_id.as_str());
                push_u64_be(&mut out, f.amount);
                push_text(&mut out, f.backer_note.as_str());
            },
        }
        assert(out@ =~= data_bytes(*self));
        out
    }
}

impl Transaction {
    /// A copy with the same view.
    pub fn duplicate(&self) -> (r: Transaction)
        ensures
            r@ == self@,
    {
        Transaction {
            id: self.id.clone(),
            tx_type: self.tx_type,
            from: copy_opt_text(&self.from),
            to: copy_opt_text(&self.to),
            data: self.data.duplicate(),
            timestamp: self.timestamp,
            signature: copy_opt_text(&self.signature),
        }
    }

    /// Builds a transaction and stamps it with its identifier.
    pub fn new(
        tx_type: TransactionType,
        from: Option<String>,
        to: Option<String>,
        data: TransactionData,
        timestamp: u64,
        signature: Option<String>,
    ) -> (tx: Transaction)
        ensures
            tx.tx_type == tx_type,
            tx.from == from,
            tx.to == to,
            tx.data == data,
            tx.timestamp == timestamp,
            tx.signature == signature,
            tx.id@ == tx_id(tx),
    {
        let mut tx = Transaction {
            id: String::new(),
            tx_type,
            from,
            to,
            data,
            timestamp,
            signature,
        };
        let id = tx.calculate_id();
        tx.id = id;
        tx
    }

    /// The bytes that the identifier hashes.
    pub fn id_preimage(&self) -> (bytes: Vec<u8>)
        ensures
            bytes@ == tx_preimage(*self),
    {
        let mut out: Vec<u8> = Vec::new();
        let tag: u8 = match self.tx_type {
            TransactionType::Coinbase => 0u8,
            TransactionType::Transfer => 1u8,
            TransactionType::CreateProject => 2u8,
            TransactionType::FundProject => 3u8,
        };
        out.push(tag);
        push_opt_text(&mut out, &self.from);
        push_opt_text(&mut out, &self.to);
        let data = self.data.to_bytes();
        push_bytes(&mut out, data.as_slice());
        push_u64_be(&mut out, self.timestamp);
        assert(out@ =~= tx_preimage(*self));
        out
    }

    /// The identifier that this transaction must carry.
    pub fn calculate_id(&self) -> (id: String)
        ensures
            id@ == tx_id(*self),
    {
        let bytes = self.id_preimage();
        hash_hex(bytes.as_slice())
    }

    /// Whether the transaction must be signed: every kind but the coinbase.
    pub fn requires_signature(&self) -> (required: bool)
        ensures
            required == (self.tx_type != TransactionType::Coinbase),
    {
        match self.tx_type {
            TransactionType::Coinbase => false,
            _ => true,
        }
    }
}

} // verus!
