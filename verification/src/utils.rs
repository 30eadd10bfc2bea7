use vstd::prelude::*;

verus! {

/// Relies on chrono::Utc::now: the number of non-leap seconds since the Unix
/// epoch. The result depends on the clock, so nothing is promised of it.
#[verifier::external_body]
pub fn get_current_timestamp() -> (r: i64) {
    chrono::Utc::now().timestamp()
}

/// Relies on uuid::Uuid::new_v4: a random version-4 UUID, carried as its
/// big-endian 128-bit integer value. The call masks and sets exactly the
/// version nibble (4) and the two RFC-variant bits (binary 10); the other
/// 122 bits are random, so nothing more is promised of them.
#[verifier::external_body]
pub fn create_uuid_v4() -> (r: u128)
    ensures
        (r >> 76) & 0xf == 4,
        (r >> 62) & 0x3 == 2,
{
    uuid::Uuid::new_v4().as_u128()
}

/// Relies on rand::Rng::fill over rand::thread_rng: 32 bytes from a
/// cryptographically secure source. The result is random, so nothing is
/// promised of it beyond its length, which the type carries.
#[verifier::external_body]
pub fn create_salt() -> (r: [u8; 32]) {
    let mut salt = [0u8; 32];
    rand::Rng::fill(&mut rand::thread_rng(), &mut salt[..]);
    salt
}

/// An ASCII digit, uppercase letter or lowercase letter: the 62-character
/// alphabet that session identifiers are drawn from.
pub open spec fn session_id_char(c: char) -> bool {
    (48 <= c as u32 && c as u32 <= 57) || (65 <= c as u32 && c as u32 <= 90) || (97 <= c as u32
        && c as u32 <= 122)
}

/// Relies on rand::Rng::sample_iter with rand::distributions::Alphanumeric:
/// a string of exactly 43 characters, each drawn uniformly from the 62
/// alphanumeric ASCII characters by a cryptographically secure source. Over
/// that alphabet 43 characters carry more than 256 bits of entropy.
#[verifier::external_body]
pub fn create_session_id() -> (r: String)
    ensures
        r@.len() == 43,
        forall|i: int| 0 <= i < r@.len() ==> session_id_char(#[trigger] r@[i]),
{
    rand::Rng::sample_iter(rand::thread_rng(), &rand::distributions::Alphanumeric)
        .take(43)
        .map(char::from)
        .collect()
}

/// Compares two byte slices for equality of their contents.
pub fn bytes_eq(a: &[u8], b: &[u8]) -> (r: bool)
    ensures
        r == (a@ == b@),
{
    if a.len() != b.len() {
        assert(a@ != b@);
        return false;
    }
    let mut i: usize = 0;
    while i < a.len()
        invariant
            0 <= i <= a.len(),
            a.len() == b.len(),
            forall|j: int| 0 <= j < i ==> a@[j] == b@[j],
        decreases a.len() - i,
    {
        if a[i] != b[i] {
            assert(a@ != b@);
            return false;
        }
        i += 1;
    }
    assert(a@ =~= b@);
    true
}

} // verus!
