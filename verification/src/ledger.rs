//! The parts of a transaction that the script checks read, as plain values.

use crate::bytes::bytes_eq;
use vstd::prelude::*;

verus! {

/// The hash of a script: 28 bytes.
pub type ScriptHash = [u8; 28];

/// The hash of a minting policy, which is the hash of its script.
pub type PolicyId = [u8; 28];

/// The hash of a verification key.
pub type AddrKeyhash = [u8; 28];

/// The hash of a stake pool's key.
pub type PoolKeyhash = [u8; 28];

/// The hash that names a transaction: 32 bytes.
pub type TxId = [u8; 32];

/// The raw bytes of a reward address.
pub type RewardAccount = Vec<u8>;

/// A reference to one output of an earlier transaction.
#[derive(Clone, Copy, Debug, PartialEq, Eq, PartialOrd, Ord, Hash)]
pub struct OutputRef {
    pub tx_id: TxId,
    pub index: u32,
}

/// Who controls a stake: a script or a key.
#[derive(Clone, Copy, Debug, PartialEq, Eq, PartialOrd, Ord, Hash)]
pub enum StakeCredential {
    Scripthash(ScriptHash),
    KeyHash(AddrKeyhash),
}

/// A certificate of a transaction. The kinds that never ask for a script are
/// kept by their encoding.
#[derive(Debug, PartialEq, Eq, Hash)]
pub enum Certificate {
    StakeRegistration(StakeCredential),
    StakeDeregistration(StakeCredential),
    StakeDelegation(StakeCredential, PoolKeyhash),
    Other(Vec<u8>),
}

/// The mathematical value of a [`Certificate`].
pub enum CertificateView {
    StakeRegistration(StakeCredential),
    StakeDeregistration(StakeCredential),
    StakeDelegation(StakeCredential, PoolKeyhash),
    Other(Seq<u8>),
}

impl View for Certificate {
    type V = CertificateView;

    open spec fn view(&self) -> CertificateView {
        match *self {
            Certificate::StakeRegistration(c) => CertificateView::StakeRegistration(c),
            Certificate::StakeDeregistration(c) => CertificateView::StakeDeregistration(c),
            Certificate::StakeDelegation(c, p) => CertificateView::StakeDelegation(c, p),
            Certificate::Other(b) => CertificateView::Other(b@),
        }
    }
}

/// The role in which a script is run.
#[derive(Debug, PartialEq, Eq, Hash)]
pub enum ScriptPurpose {
    Spending(OutputRef),
    Minting(PolicyId),
    Rewarding(StakeCredential),
    Certifying(Certificate),
}

/// The mathematical value of a [`ScriptPurpose`].
pub enum ScriptPurposeView {
    Spending(OutputRef),
    Minting(PolicyId),
    Rewarding(StakeCredential),
    Certifying(CertificateView),
}

impl View for ScriptPurpose {
    type V = ScriptPurposeView;

    open spec fn view(&self) -> ScriptPurposeView {
        match *self {
            ScriptPurpose::Spending(r) => ScriptPurposeView::Spending(r),
            ScriptPurpose::Minting(p) => ScriptPurposeView::Minting(p),
            ScriptPurpose::Rewarding(c) => ScriptPurposeView::Rewarding(c),
            ScriptPurpose::Certifying(c) => ScriptPurposeView::Certifying(c@),
        }
    }
}

/// The language of a script. Only a native script runs without a redeemer.
#[derive(Clone, Copy, Debug, PartialEq, Eq, Hash, Structural)]
pub enum ScriptVersion {
    Native,
    PlutusV1,
    PlutusV2,
    PlutusV3,
}

/// The kind of purpose that a redeemer is for.
#[derive(Clone, Copy, Debug, PartialEq, Eq, PartialOrd, Ord, Hash, Structural)]
pub enum RedeemerTag {
    Spend,
    Mint,
    Cert,
    Reward,
    Vote,
    Propose,
}

/// A redeemer pointer: the kind of purpose, and the purpose's place in the
/// canonical order of its container.
#[derive(Clone, Copy, Debug, PartialEq, Eq, PartialOrd, Ord, Hash, Structural)]
pub struct RedeemersKey {
    pub tag: RedeemerTag,
    pub index: u32,
}

/// A transaction output, as far as the script checks read it.
#[derive(Debug, PartialEq, Eq)]
pub struct TxOut {
    pub address: Vec<u8>,
}

/// An input of the transaction together with the output that it spends.
#[derive(Debug, PartialEq, Eq)]
pub struct ResolvedInput {
    pub input: OutputRef,
    pub output: TxOut,
}

/// The mathematical value of a [`ResolvedInput`].
pub struct ResolvedInputView {
    pub input: OutputRef,
    pub address: Seq<u8>,
}

impl View for ResolvedInput {
    type V = ResolvedInputView;

    open spec fn view(&self) -> ResolvedInputView {
        ResolvedInputView { input: self.input, address: self.output.address@ }
    }
}

/// A transaction, as far as the script checks read it. The containers are in
/// the order of the transaction body. Of the minted assets, the withdrawals
/// and the witness set's redeemers only the keys are kept.
#[derive(Debug, PartialEq, Eq)]
pub struct Transaction {
    pub inputs: Vec<OutputRef>,
    pub mint: Option<Vec<PolicyId>>,
    pub withdrawals: Option<Vec<RewardAccount>>,
    pub certificates: Option<Vec<Certificate>>,
    pub has_proposal_procedures: bool,
    pub has_voting_procedures: bool,
    pub redeemers: Option<Vec<RedeemersKey>>,
}

/// The mathematical value of a [`Transaction`]. A container that the
/// transaction leaves out is empty here.
pub struct TransactionView {
    pub inputs: Seq<OutputRef>,
    pub mint: Seq<PolicyId>,
    pub withdrawals: Seq<Seq<u8>>,
    pub certificates: Seq<CertificateView>,
    pub governance: bool,
    pub redeemers: Seq<RedeemersKey>,
}

/// The values of the items of `s`, in order.
pub open spec fn views<T: View>(s: Seq<T>) -> Seq<T::V> {
    Seq::new(s.len(), |i: int| s[i]@)
}

impl View for Transaction {
    type V = TransactionView;

    open spec fn view(&self) -> TransactionView {
        TransactionView {
            inputs: self.inputs@,
            mint: match self.mint {
                Some(m) => m@,
                None => Seq::empty(),
            },
            withdrawals: match self.withdrawals {
                Some(w) => views(w@),
                None => Seq::empty(),
            },
            certificates: match self.certificates {
                Some(c) => views(c@),
                None => Seq::empty(),
            },
            governance: self.has_proposal_procedures || self.has_voting_procedures,
            redeemers: match self.redeemers {
                Some(r) => r@,
                None => Seq::empty(),
            },
        }
    }
}

impl Transaction {
    /// Every container is short enough for a redeemer pointer to index it.
    pub open spec fn indexable(&self) -> bool {
        &&& self@.inputs.len() <= u32::MAX
        &&& self@.mint.len() <= u32::MAX
        &&& self@.withdrawals.len() <= u32::MAX
        &&& self@.certificates.len() <= u32::MAX
    }

    /// Whether every container is short enough for a redeemer pointer to
    /// index it.
    pub fn is_indexable(&self) -> (r: bool)
        ensures
            r == self.indexable(),
    {
        let limit: usize = 0xffff_ffff;
        let mint_len = match &self.mint {
            Some(m) => m.len(),
            None => 0,
        };
        let withdrawals_len = match &self.withdrawals {
            Some(w) => w.len(),
            None => 0,
        };
        let certificates_len = match &self.certificates {
            Some(c) => c.len(),
            None => 0,
        };
        self.inputs.len() <= limit && mint_len <= limit && withdrawals_len <= limit
            && certificates_len <= limit
    }
}

/// Whether two script hashes are the same.
pub fn hash_eq(a: &ScriptHash, b: &ScriptHash) -> (r: bool)
    ensures
        r == (*a == *b),
{
    broadcast use vstd::array::group_array_axioms;

    let r = bytes_eq(a.as_slice(), b.as_slice());
    assert(r ==> *a =~= *b);
    r
}

/// Whether two transaction ids are the same.
pub fn tx_id_eq(a: &TxId, b: &TxId) -> (r: bool)
    ensures
        r == (*a == *b),
{
    broadcast use vstd::array::group_array_axioms;

    let r = bytes_eq(a.as_slice(), b.as_slice());
    assert(r ==> *a =~= *b);
    r
}

impl OutputRef {
    /// Whether two references name the same output.
    pub fn same(&self, other: &OutputRef) -> (r: bool)
        ensures
            r == (*self == *other),
    {
        self.index == other.index && tx_id_eq(&self.tx_id, &other.tx_id)
    }
}

impl StakeCredential {
    /// Whether two credentials are the same.
    pub fn same(&self, other: &StakeCredential) -> (r: bool)
        ensures
            r == (*self == *other),
    {
        match (self, other) {
            (StakeCredential::Scripthash(a), StakeCredential::Scripthash(b)) => hash_eq(a, b),
            (StakeCredential::KeyHash(a), StakeCredential::KeyHash(b)) => hash_eq(a, b),
            _ => false,
        }
    }
}

impl Certificate {
    /// Whether two certificates have the same value.
    pub fn same(&self, other: &Certificate) -> (r: bool)
        ensures
            r == (self@ == other@),
    {
        match (self, other) {
            (Certificate::StakeRegistration(a), Certificate::StakeRegistration(b)) => a.same(b),
            (Certificate::StakeDeregistration(a), Certificate::StakeDeregistration(b)) => a.same(
                b,
            ),
            (Certificate::StakeDelegation(a, p), Certificate::StakeDelegation(b, q)) => a.same(b)
                && hash_eq(p, q),
            (Certificate::Other(a), Certificate::Other(b)) => bytes_eq(
                a.as_slice(),
                b.as_slice(),
            ),
            _ => false,
        }
    }
}

impl Clone for Certificate {
    fn clone(&self) -> (r: Self)
        ensures
            r@ == self@,
    {
        match self {
            Certificate::StakeRegistration(c) => Certificate::StakeRegistration(*c),
            Certificate::StakeDeregistration(c) => Certificate::StakeDeregistration(*c),
            Certificate::StakeDelegation(c, p) => Certificate::StakeDelegation(*c, *p),
            Certificate::Other(b) => Certificate::Other(b.clone()),
        }
    }
}

impl Clone for ScriptPurpose {
    fn clone(&self) -> (r: Self)
        ensures
            r@ == self@,
    {
        match self {
            ScriptPurpose::Spending(o) => ScriptPurpose::Spending(*o),
            ScriptPurpose::Minting(p) => ScriptPurpose::Minting(*p),
            ScriptPurpose::Rewarding(c) => ScriptPurpose::Rewarding(*c),
            ScriptPurpose::Certifying(c) => ScriptPurpose::Certifying(c.clone()),
        }
    }
}

} // verus!
