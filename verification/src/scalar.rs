//! Scalars: the integers modulo the order of the secp256k1 group.

use crate::encoding::{be_nat, lemma_be_nat_is_injective};
use elliptic_curve::{Field, PrimeField};
use vstd::prelude::*;

verus! {

/// The order of the secp256k1 group, a prime.
pub open spec fn group_order() -> nat {
    0xFFFFFFFFFFFFFFFFFFFFFFFFFFFFFFFEBAAEDCE6AF48A03BBFD25E8CD0364141nat
}

/// An integer below the group order, held as its 32 big-endian bytes. A
/// scalar may be a secret: it is handed on by move or by reference, and
/// copied only by `clone`.
#[derive(Debug, PartialEq, Eq)]
pub struct Scalar {
    pub(crate) bytes: [u8; 32],
}

impl Clone for Scalar {
    fn clone(&self) -> (res: Scalar)
        ensures
            res == *self,
    {
        proof {
            use_type_invariant(self);
        }
        Scalar { bytes: self.bytes }
    }
}

impl View for Scalar {
    type V = nat;

    /// The integer that the scalar stands for.
    open spec fn view(&self) -> nat {
        be_nat(self.repr())
    }
}

impl Scalar {
    /// The 32 big-endian bytes of the scalar.
    pub closed spec fn repr(&self) -> Seq<u8> {
        self.bytes@
    }

    /// Every scalar is 32 bytes that hold an integer below the group order.
    #[verifier::type_invariant]
    pub open spec fn wf(&self) -> bool {
        &&& self.repr().len() == 32
        &&& self@ < group_order()
    }

    /// Two scalars with the same bytes are the same scalar.
    pub proof fn lemma_repr_determines(a: Scalar, b: Scalar)
        requires
            a.repr() == b.repr(),
        ensures
            a == b,
    {
        assert(a.bytes =~= b.bytes);
    }

    /// Two scalars that stand for the same integer are the same scalar.
    pub proof fn lemma_value_determines(a: Scalar, b: Scalar)
        requires
            a.wf(),
            b.wf(),
            a@ == b@,
        ensures
            a == b,
    {
        lemma_be_nat_is_injective(a.repr(), b.repr());
        Self::lemma_repr_determines(a, b);
    }

    /// The scalar with the given big-endian bytes, where they hold an integer
    /// below the group order.
    pub fn from_repr(bytes: [u8; 32]) -> (res: Option<Scalar>)
        ensures
            res is Some <==> be_nat(bytes@) < group_order(),
            res matches Some(s) ==> s.repr() == bytes@,
    {
        if is_below_order(&bytes) {
            Some(Scalar { bytes })
        } else {
            None
        }
    }

    /// The 32 big-endian bytes of the scalar.
    pub fn to_repr(&self) -> (res: [u8; 32])
        ensures
            res@ == self.repr(),
    {
        self.bytes
    }
}

/// `k256::Scalar::from_repr` accepts exactly the 32 bytes that hold a
/// big-endian integer below the group order.
#[verifier::external_body]
fn is_below_order(bytes: &[u8; 32]) -> (res: bool)
    ensures
        res == (be_nat(bytes@) < group_order()),
{
    k256::Scalar::from_repr((*bytes).into()).is_some().into()
}

/// `k256::Scalar::random` with `rand_core::OsRng`: a scalar drawn from the
/// operating system's random source. Nothing is known of it but that it is a
/// scalar, and two calls may differ. Where the operating system has no
/// random bytes to give, `OsRng` stops the program.
#[verifier::external_body]
pub(crate) fn random_scalar() -> (res: Scalar)
    ensures
        res.wf(),
{
    Scalar { bytes: k256::Scalar::random(&mut rand_core::OsRng).to_repr().into() }
}

/// `k256::Scalar + k256::Scalar`, from bytes to bytes: the sum modulo the
/// group order.
#[verifier::external_body]
pub(crate) fn scalar_add(a: &Scalar, b: &Scalar) -> (res: Scalar)
    requires
        a.wf(),
        b.wf(),
    ensures
        res.wf(),
        res@ == (a@ + b@) % group_order(),
{
    let x = k256::Scalar::from_repr(a.bytes.into()).unwrap();
    let y = k256::Scalar::from_repr(b.bytes.into()).unwrap();
    Scalar { bytes: (x + y).to_repr().into() }
}

/// `k256::Scalar * k256::Scalar`, from bytes to bytes: the product modulo
/// the group order.
#[verifier::external_body]
pub(crate) fn scalar_mul(a: &Scalar, b: &Scalar) -> (res: Scalar)
    requires
        a.wf(),
        b.wf(),
    ensures
        res.wf(),
        res@ == (a@ * b@) % group_order(),
{
    let x = k256::Scalar::from_repr(a.bytes.into()).unwrap();
    let y = k256::Scalar::from_repr(b.bytes.into()).unwrap();
    Scalar { bytes: (x * y).to_repr().into() }
}

} // verus!
