//! A block is an envelope: a certificate justifying entry into its view, a
//! payload of transactions that consensus does not interpret, and the
//! blockhash of the parent proposal it extends.

use vstd::prelude::*;

use crate::certificates::{CertificateV, QuorumCertificate};
use crate::crypto::Signature;
use crate::transaction::{Transaction, TransactionV};

verus! {

/// Mathematical model of a [`Block`].
pub ghost struct BlockV {
    pub transactions: Seq<TransactionV>,
    pub certificate: CertificateV,
    pub last_blockhash: Seq<u8>,
    pub view: u64,
}

/// A proposal: `certificate` justifies entry into `view`; `last_blockhash`
/// is the signature-of-proposal of the parent block being extended.
#[derive(Debug)]
pub struct Block {
    pub transactions: Vec<Transaction>,
    pub certificate: QuorumCertificate,
    pub last_blockhash: Signature,
    pub view: u64,
}

impl View for Block {
    type V = BlockV;

    open spec fn view(&self) -> BlockV {
        BlockV {
            transactions: self.transactions.deep_view(),
            certificate: self.certificate@,
            last_blockhash: self.last_blockhash@,
            view: self.view,
        }
    }
}

impl Clone for Block {
    fn clone(&self) -> (r: Block)
        ensures
            r@ == self@,
    {
        let mut transactions: Vec<Transaction> = Vec::new();
        let mut i: usize = 0;
        while i < self.transactions.len()
            invariant
                i <= self.transactions@.len(),
                transactions@.len() == i,
                forall|j: int| 0 <= j < i ==> transactions@[j]@ == self.transactions@[j]@,
            decreases self.transactions@.len() - i,
        {
            transactions.push(self.transactions[i].clone());
            i += 1;
        }
        proof {
            assert(transactions.deep_view() =~= self.transactions.deep_view());
        }
        Block {
            transactions,
            certificate: self.certificate.clone(),
            last_blockhash: self.last_blockhash.clone(),
            view: self.view,
        }
    }
}

} // verus!
