//! Type-level protection for secret values.
//!
//! A `Sealed<T>` owns a secret and hands it out only to a closure, counting
//! every access. The secret type must be `Sensitive`: it can be wiped in place,
//! which happens when a sealed value is rotated. Dropping a sealed value does
//! not wipe it; callers that need that rotate it to an empty value first.
use vstd::prelude::*;
use subtle::ConstantTimeEq;
use zeroize::Zeroize;

verus! {

/// Calls `<String as zeroize::Zeroize>::zeroize`: the bytes are overwritten
/// with zeros and the string is cleared, so it is empty afterwards.
#[verifier::external_body]
fn zeroize_string(s: &mut String)
    ensures
        final(s)@ == Seq::<char>::empty(),
{
    s.zeroize();
}

/// Calls `<Vec<u8> as zeroize::Zeroize>::zeroize`: every element and the
/// spare capacity are zeroed and the vector is cleared.
#[verifier::external_body]
fn zeroize_byte_vec(v: &mut Vec<u8>)
    ensures
        final(v)@ == Seq::<u8>::empty(),
{
    v.zeroize();
}

/// Calls `<[u8; N] as zeroize::Zeroize>::zeroize`: every byte becomes zero.
#[verifier::external_body]
fn zeroize_byte_array<const N: usize>(a: &mut [u8; N])
    ensures
        final(a)@ == Seq::new(N as nat, |i: int| 0u8),
{
    a.zeroize();
}

/// Calls `<[u8] as subtle::ConstantTimeEq>::ct_eq` and converts the `Choice`
/// to a `bool`: true exactly when both slices hold the same bytes.
#[verifier::external_body]
fn ct_eq_bytes(a: &[u8], b: &[u8]) -> (r: bool)
    ensures
        r == (a@ == b@),
{
    bool::from(a.ct_eq(b))
}

/// A type that holds secret material and can be wiped in place.
pub trait Sensitive: Sized {
    /// Whether the value holds nothing of the secret any more.
    spec fn is_wiped(&self) -> bool;

    /// Overwrite the secret material.
    fn wipe(&mut self)
        ensures
            final(self).is_wiped(),
    ;
}

impl Sensitive for String {
    open spec fn is_wiped(&self) -> bool {
        self@.len() == 0
    }

    fn wipe(&mut self) {
        zeroize_string(self);
    }
}

impl Sensitive for Vec<u8> {
    open spec fn is_wiped(&self) -> bool {
        self@.len() == 0
    }

    fn wipe(&mut self) {
        zeroize_byte_vec(self);
    }
}

impl Sensitive for [u8; 32] {
    open spec fn is_wiped(&self) -> bool {
        forall|i: int| 0 <= i < self@.len() ==> self@[i] == 0u8
    }

    fn wipe(&mut self) {
        zeroize_byte_array(self);
    }
}

impl Sensitive for [u8; 64] {
    open spec fn is_wiped(&self) -> bool {
        forall|i: int| 0 <= i < self@.len() ==> self@[i] == 0u8
    }

    fn wipe(&mut self) {
        zeroize_byte_array(self);
    }
}

/// The counter that follows one more access: counters wrap around.
pub open spec fn next_count(n: u32) -> u32 {
    vstd::wrapping::u32_specs::wrapping_add(n, 1)
}

/// The operation counter of a broker after one more operation.
pub open spec fn next_op(n: u64) -> u64 {
    vstd::wrapping::u64_specs::wrapping_add(n, 1)
}

/// A sealed secret: reachable only through `use_within` and
/// `use_within_mut`, which count each access.
pub struct Sealed<T: Sensitive> {
    inner: T,
    access_count: u32,
}

impl<T: Sensitive> Sealed<T> {
    /// The secret held.
    pub closed spec fn secret(&self) -> T {
        self.inner
    }

    /// The number of accesses since the secret was sealed or last rotated.
    pub closed spec fn accesses(&self) -> u32 {
        self.access_count
    }

    /// Seal a value; no access has been made yet.
    pub fn new(value: T) -> (s: Self)
        ensures
            s.secret() == value,
            s.accesses() == 0,
    {
        Sealed { inner: value, access_count: 0 }
    }

    /// Run `f` on a shared reference to the secret and return its result.
    /// The access is counted.
    pub fn use_within<F, R>(&mut self, f: F) -> (r: R) where F: FnOnce(&T) -> R
        requires
            f.requires((&old(self).secret(),)),
        ensures
            f.ensures((&old(self).secret(),), r),
            final(self).secret() == old(self).secret(),
            final(self).accesses() == next_count(old(self).accesses()),
    {
        self.access_count = self.access_count.wrapping_add(1);
        f(&self.inner)
    }

    /// Run `f` on a mutable reference to the secret and return its result.
    /// The access is counted; the secret becomes what `f` left behind.
    pub fn use_within_mut<F, R>(&mut self, f: F) -> (r: R) where F: FnOnce(&mut T) -> R
        requires
            forall|t: &mut T| #[trigger] f.requires((t,)),
        ensures
            exists|t: &mut T|
                #[trigger] f.ensures((t,), r) && *t == old(self).secret() && *final(t)
                    == final(self).secret(),
            final(self).accesses() == next_count(old(self).accesses()),
    {
        self.access_count = self.access_count.wrapping_add(1);
        f(&mut self.inner)
    }

    /// The number of accesses since the secret was sealed or last rotated.
    pub fn access_count(&self) -> (n: u32)
        ensures
            n == self.accesses(),
    {
        self.access_count
    }

    /// Replace the secret: the old one is wiped first and the access
    /// counter starts again from zero.
    pub fn rotate(&mut self, new_value: T)
        ensures
            final(self).secret() == new_value,
            final(self).accesses() == 0,
    {
        self.inner.wipe();
        self.inner = new_value;
        self.access_count = 0;
    }

    /// The redacted text shown for a sealed value: it names the number of
    /// accesses and nothing of the secret.
    pub fn debug_string(&self) -> (s: String)
        ensures
            s@ == redacted_text(self.accesses()),
    {
        let mut out: Vec<char> = Vec::new();
        crate::text::push_str(&mut out, "Sealed<[REDACTED]>(accesses: ");
        crate::text::push_decimal(&mut out, self.access_count as u64);
        out.push(')');
        crate::text::string_from(out.as_slice())
    }
}

/// The text of `Sealed::debug_string` for a given access count.
pub open spec fn redacted_text(n: u32) -> Seq<char> {
    "Sealed<[REDACTED]>(accesses: "@ + crate::text::decimal(n as nat) + seq![')']
}

/// Mediates operations on sealed secrets and counts them.
pub struct SecretBroker {
    operations: u64,
}

impl SecretBroker {
    /// The number of operations brokered so far.
    pub closed spec fn ops(&self) -> u64 {
        self.operations
    }

    pub fn new() -> (b: Self)
        ensures
            b.ops() == 0,
    {
        SecretBroker { operations: 0 }
    }

    /// Seal a value through the broker; the operation is counted.
    pub fn seal<T: Sensitive>(&mut self, value: T) -> (s: Sealed<T>)
        ensures
            s.secret() == value,
            s.accesses() == 0,
            final(self).ops() == next_op(old(self).ops()),
    {
        self.operations = self.operations.wrapping_add(1);
        Sealed::new(value)
    }

    /// Compare two sealed byte strings in constant time. Each of them is
    /// accessed once and the operation is counted.
    pub fn constant_time_eq(&mut self, a: &mut Sealed<Vec<u8>>, b: &mut Sealed<Vec<u8>>) -> (r:
        bool)
        ensures
            r == (old(a).secret()@ == old(b).secret()@),
            final(a).secret() == old(a).secret(),
            final(b).secret() == old(b).secret(),
            final(a).accesses() == next_count(old(a).accesses()),
            final(b).accesses() == next_count(old(b).accesses()),
            final(self).ops() == next_op(old(self).ops()),
    {
        self.operations = self.operations.wrapping_add(1);
        a.access_count = a.access_count.wrapping_add(1);
        b.access_count = b.access_count.wrapping_add(1);
        if a.inner.len() != b.inner.len() {
            return false;
        }
        ct_eq_bytes(a.inner.as_slice(), b.inner.as_slice())
    }

    /// The number of operations brokered so far.
    pub fn operation_count(&self) -> (n: u64)
        ensures
            n == self.ops(),
    {
        self.operations
    }
}

/// Seal a string secret.
pub fn seal_string(s: String) -> (r: Sealed<String>)
    ensures
        r.secret() == s,
        r.accesses() == 0,
{
    Sealed::new(s)
}

/// Seal a byte secret.
pub fn seal_bytes(b: Vec<u8>) -> (r: Sealed<Vec<u8>>)
    ensures
        r.secret() == b,
        r.accesses() == 0,
{
    Sealed::new(b)
}

} // verus!
