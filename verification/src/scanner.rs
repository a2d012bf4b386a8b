use vstd::prelude::*;

verus! {

/// The profile of the locally signed-in account, as read from the running
/// client: display strings and the 256-bit database key.
#[derive(Debug)]
pub struct WeChatProfile {
    /// The client's version string.
    pub version: String,
    /// The account's login name.
    pub user_name: String,
    /// The account's display name.
    pub nick_name: String,
    /// The account's phone number.
    pub mobile: String,
    /// The account's mail address.
    pub email: String,
    /// The 32-byte key that decrypts the account's databases.
    pub aes256: [u8; 32],
}

impl Default for WeChatProfile {
    /// An empty profile with an all-zero key.
    fn default() -> (r: WeChatProfile)
        ensures
            r.version@.len() == 0,
            r.user_name@.len() == 0,
            r.nick_name@.len() == 0,
            r.mobile@.len() == 0,
            r.email@.len() == 0,
            r.aes256@ == Seq::new(32, |i: int| 0u8),
    {
        let aes256 = [0u8; 32];
        proof {
            assert(aes256@ =~= Seq::new(32, |i: int| 0u8));
        }
        WeChatProfile {
            version: String::new(),
            user_name: String::new(),
            nick_name: String::new(),
            mobile: String::new(),
            email: String::new(),
            aes256,
        }
    }
}

/// Copies the first 32 bytes of a slice into a key array.
pub fn key_from_slice(v: &[u8]) -> (r: [u8; 32])
    requires
        v@.len() >= 32,
    ensures
        r@ == v@.take(32),
{
    let mut key = [0u8; 32];
    let mut i: usize = 0;
    while i < 32
        invariant
            i <= 32,
            v@.len() >= 32,
            forall|j: int| 0 <= j < i ==> key@[j] == v@[j],
        decreases 32 - i,
    {
        key[i] = v[i];
        i = i + 1;
    }
    proof {
        assert(key@ =~= v@.take(32));
    }
    key
}

} // verus!
