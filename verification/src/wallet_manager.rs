//! The key store behind the node's wallet file: addresses, their secret
//! keys, labels and earnings, and the default address.
use vstd::prelude::*;
use vstd::string::StringSliceAdditionalSpecFns;
use crate::address::{decode_hex, encode_hex, hex_decode_result, hex_encode, Address, HexError};
use crate::sys::{ed25519_public_key, ed25519_public_key_of, now_unix_seconds, random_bytes_32};
use crate::vecmap::VecMap;

verus! {

/// Why a wallet operation was refused.
#[derive(Debug, Clone, Copy, PartialEq, Eq)]
pub enum WalletError {
    /// The wallet holds no such address.
    AddressNotFound,
    /// The private key is not hexadecimal text.
    InvalidHex(HexError),
    /// The private key is not 32 bytes long.
    InvalidKeyLength,
}

/// One address of the wallet.
#[derive(Debug)]
pub struct WalletEntry {
    pub address: String,
    pub private_key_hex: String,
    pub label: String,
    pub balance: u64,
    pub total_earned: u64,
    pub tasks_completed: u64,
    pub created_at: u64,
    pub last_updated: u64,
}

impl WalletEntry {
    /// A copy of the entry.
    pub fn duplicate(&self) -> (r: WalletEntry)
        ensures
            r == *self,
    {
        WalletEntry {
            address: self.address.clone(),
            private_key_hex: self.private_key_hex.clone(),
            label: self.label.clone(),
            balance: self.balance,
            total_earned: self.total_earned,
            tasks_completed: self.tasks_completed,
            created_at: self.created_at,
            last_updated: self.last_updated,
        }
    }
}

/// The map that a list of (address, entry) pairs gives, later pairs
/// overriding earlier ones with the same address.
pub open spec fn pairs_map(s: Seq<(String, WalletEntry)>) -> Map<Seq<char>, WalletEntry>
    decreases s.len(),
{
    if s.len() == 0 {
        Map::empty()
    } else {
        pairs_map(s.drop_last()).insert(s.last().0@, s.last().1)
    }
}

/// Whether `e` is a freshly made entry for `address`, with the given key
/// text and label, nothing earned yet, made and updated at the same time.
pub open spec fn fresh_entry(e: WalletEntry, address: Seq<char>, key_hex: Seq<char>, label: Seq<char>) -> bool {
    &&& e.address@ == address
    &&& e.private_key_hex@ == key_hex
    &&& e.label@ == label
    &&& e.balance == 0
    &&& e.total_earned == 0
    &&& e.tasks_completed == 0
    &&& e.created_at == e.last_updated
}

/// The wallet: its addresses, keyed by address text, and the default one.
#[derive(Debug)]
pub struct WalletFile {
    pub version: String,
    pub created_at: u64,
    pub last_used: u64,
    pub default_address: Option<String>,
    pub addresses: VecMap<String, WalletEntry>,
}

impl WalletFile {
    /// The entry of each address text the wallet holds.
    pub closed spec fn addresses(self) -> Map<Seq<char>, WalletEntry> {
        self.addresses@
    }

    /// The addresses in the order in which they were added.
    pub closed spec fn address_list(self) -> Seq<(String, WalletEntry)> {
        self.addresses.entries()
    }

    /// The wallet's entries are keyed consistently.
    pub closed spec fn wf(self) -> bool {
        self.addresses.wf()
    }

    /// Everything but the address map is as it was.
    pub open spec fn same_header(self, other: WalletFile) -> bool {
        &&& self.version == other.version
        &&& self.created_at == other.created_at
        &&& self.last_used == other.last_used
    }

    /// The listed addresses are the wallet's addresses, each once.
    pub proof fn lemma_address_list(self)
        requires
            self.wf(),
        ensures
            self.address_list().len() == self.addresses().dom().len(),
            self.addresses().dom().finite(),
            forall|i: int|
                0 <= i < self.address_list().len() ==> #[trigger] self.addresses().contains_key(
                    self.address_list()[i].0@,
                ) && self.addresses()[self.address_list()[i].0@] == self.address_list()[i].1,
            forall|i: int, j: int|
                0 <= i < self.address_list().len() && 0 <= j < self.address_list().len() && i != j
                    ==> (#[trigger] self.address_list()[i]).0@ != (#[trigger] self.address_list()[j]).0@,
    {
        self.addresses.lemma_entries_view();
    }

    /// An empty wallet of format version 1.0.0, made now.
    pub fn new() -> (r: WalletFile)
        ensures
            r.wf(),
            r.version@ == "1.0.0"@,
            r.created_at == r.last_used,
            r.default_address is None,
            r.addresses() == Map::<Seq<char>, WalletEntry>::empty(),
    {
        let now = now_unix_seconds() as u64;
        WalletFile {
            version: String::from_str("1.0.0"),
            created_at: now,
            last_used: now,
            default_address: None,
            addresses: VecMap::new(),
        }
    }

    /// A wallet with the given header and addresses; a later pair overrides
    /// an earlier one with the same address text.
    pub fn from_parts(
        version: String,
        created_at: u64,
        last_used: u64,
        default_address: Option<String>,
        entries: Vec<(String, WalletEntry)>,
    ) -> (r: WalletFile)
        ensures
            r.wf(),
            r.version == version,
            r.created_at == created_at,
            r.last_used == last_used,
            r.default_address == default_address,
            r.addresses() == pairs_map(entries@),
    {
        let mut addresses: VecMap<String, WalletEntry> = VecMap::new();
        let mut entries = entries;
        let ghost all = entries@;
        let n = entries.len();
        let mut i: usize = 0;
        while i < n
            invariant
                addresses.wf(),
                all.len() == n,
                i <= n,
                entries@ == all.subrange(i as int, n as int),
                addresses@ == pairs_map(all.subrange(0, i as int)),
            decreases n - i,
        {
            let (k, v) = entries.remove(0);
            proof {
                let pre = all.subrange(0, i as int);
                let post = all.subrange(0, i + 1);
                assert(post.drop_last() =~= pre);
                assert(post.last() == all[i as int]);
            }
            addresses.insert(k, v);
            i = i + 1;
            proof {
                assert(entries@ =~= all.subrange(i as int, n as int));
            }
        }
        proof {
            assert(all.subrange(0, n as int) =~= all);
        }
        WalletFile { version, created_at, last_used, default_address, addresses }
    }

    /// Adds a new address with a fresh random secret key; the first address
    /// of a wallet without a default becomes the default.
    pub fn add_address(&mut self, label: &str) -> (r: Result<String, WalletError>)
        requires
            old(self).wf(),
        ensures
            final(self).wf(),
            r matches Ok(a) && address_added(*old(self), *final(self), a, label@),
    {
        let secret = random_bytes_32();
        let public_key = ed25519_public_key(&secret);
        let address = Address::from_public_key(&public_key);
        let address_str = address.to_string();
        let private_key_hex = encode_hex(&secret);
        let now = now_unix_seconds() as u64;
        let entry = WalletEntry {
            address: address_str.clone(),
            private_key_hex,
            label: String::from_str(label),
            balance: 0,
            total_earned: 0,
            tasks_completed: 0,
            created_at: now,
            last_updated: now,
        };
        proof {
            self.addresses.lemma_contains_has_key(address_str@);
        }
        self.addresses.insert(address_str.clone(), entry);
        if self.default_address.is_none() {
            self.default_address = Some(address_str.clone());
        }
        proof {
            assert(self.addresses().remove(address_str@) =~= old(self).addresses().remove(address_str@));
            assert(secret@.len() == 32);
            assert(fresh_entry(self.addresses()[address_str@], address_str@, hex_encode(secret@), label@));
        }
        Ok(address_str)
    }

    /// The entry of an address.
    pub fn get_address(&self, address: &str) -> (r: Option<&WalletEntry>)
        requires
            self.wf(),
        ensures
            match r {
                Some(e) => self.addresses().contains_key(address@) && *e == self.addresses()[address@],
                None => !self.addresses().contains_key(address@),
            },
    {
        let key = String::from_str(address);
        self.addresses.get(&key)
    }

    /// The entry of the default address, if there is a default and the
    /// wallet holds it.
    pub fn get_default_address(&self) -> (r: Option<&WalletEntry>)
        requires
            self.wf(),
        ensures
            match self.default_address {
                Some(d) => match r {
                    Some(e) => self.addresses().contains_key(d@) && *e == self.addresses()[d@],
                    None => !self.addresses().contains_key(d@),
                },
                None => r is None,
            },
    {
        match &self.default_address {
            Some(d) => self.addresses.get(d),
            None => None,
        }
    }

    /// Makes an address the default; refused, with nothing changed, when the
    /// wallet does not hold it.
    pub fn set_default_address(&mut self, address: &str) -> (r: Result<(), WalletError>)
        requires
            old(self).wf(),
        ensures
            final(self).wf(),
            old(self).addresses().contains_key(address@) ==> r is Ok && (final(self).default_address
                matches Some(d) && d@ == address@),
            !old(self).addresses().contains_key(address@) ==> r == Err::<(), WalletError>(
                WalletError::AddressNotFound,
            ) && final(self).default_address == old(self).default_address,
            final(self).addresses() == old(self).addresses(),
            final(self).same_header(*old(self)),
    {
        let key = String::from_str(address);
        if self.addresses.contains_key(&key) {
            self.default_address = Some(key);
            Ok(())
        } else {
            Err(WalletError::AddressNotFound)
        }
    }

    /// Credits a task's earnings to an address: its balance and total
    /// earned grow by the amount and its task count by one. Refused, with
    /// nothing changed, when the wallet does not hold the address.
    pub fn update_balance(&mut self, address: &str, amount: u64) -> (r: Result<(), WalletError>)
        requires
            old(self).wf(),
            can_credit(*old(self), address@, amount),
        ensures
            final(self).wf(),
            balance_credited(*old(self), *final(self), address@, amount, r),
    {
        let key = String::from_str(address);
        let mut entry = match self.addresses.get(&key) {
            Some(e) => e.duplicate(),
            None => {
                return Err(WalletError::AddressNotFound);
            },
        };
        entry.balance = entry.balance + amount;
        entry.total_earned = entry.total_earned + amount;
        entry.tasks_completed = entry.tasks_completed + 1;
        entry.last_updated = now_unix_seconds() as u64;
        self.addresses.insert(key, entry);
        proof {
            assert(self.addresses().remove(address@) =~= old(self).addresses().remove(address@));
        }
        Ok(())
    }

    /// Every address with its entry, each once, in the order added.
    pub fn list_addresses(&self) -> (r: Vec<(&String, &WalletEntry)>)
        requires
            self.wf(),
        ensures
            r@.len() == self.address_list().len(),
            forall|i: int|
                0 <= i < r@.len() ==> *(#[trigger] r@[i]).0 == self.address_list()[i].0 && *r@[i].1
                    == self.address_list()[i].1,
    {
        let n = self.addresses.len();
        let mut out: Vec<(&String, &WalletEntry)> = Vec::new();
        let mut i: usize = 0;
        while i < n
            invariant
                n == self.address_list().len(),
                i <= n,
                out@.len() == i,
                forall|j: int|
                    0 <= j < i ==> *(#[trigger] out@[j]).0 == self.address_list()[j].0 && *out@[j].1
                        == self.address_list()[j].1,
            decreases n - i,
        {
            out.push(self.addresses.entry_at(i));
            i = i + 1;
        }
        out
    }

    /// The secret key text of an address.
    pub fn export_private_key(&self, address: &str) -> (r: Result<String, WalletError>)
        requires
            self.wf(),
        ensures
            self.addresses().contains_key(address@) ==> (r matches Ok(k) && k
                == self.addresses()[address@].private_key_hex),
            !self.addresses().contains_key(address@) ==> r == Err::<String, WalletError>(
                WalletError::AddressNotFound,
            ),
    {
        match self.get_address(address) {
            Some(e) => Ok(e.private_key_hex.clone()),
            None => Err(WalletError::AddressNotFound),
        }
    }

    /// (address, secret key text, label) of every address, in the order added.
    pub fn export_all_keys(&self) -> (r: Vec<(String, String, String)>)
        requires
            self.wf(),
        ensures
            r@.len() == self.address_list().len(),
            forall|i: int|
                0 <= i < r@.len() ==> (#[trigger] r@[i]).0 == self.address_list()[i].0 && r@[i].1
                    == self.address_list()[i].1.private_key_hex && r@[i].2 == self.address_list()[i].1.label,
    {
        let n = self.addresses.len();
        let mut out: Vec<(String, String, String)> = Vec::new();
        let mut i: usize = 0;
        while i < n
            invariant
                n == self.address_list().len(),
                i <= n,
                out@.len() == i,
                forall|j: int|
                    0 <= j < i ==> (#[trigger] out@[j]).0 == self.address_list()[j].0 && out@[j].1
                        == self.address_list()[j].1.private_key_hex && out@[j].2
                        == self.address_list()[j].1.label,
            decreases n - i,
        {
            let (a, e) = self.addresses.entry_at(i);
            out.push((a.clone(), e.private_key_hex.clone(), e.label.clone()));
            i = i + 1;
        }
        out
    }

    /// Adds the address of a secret key given as hexadecimal text, keeping
    /// the text as given. Refused, with nothing changed, when the text is not
    /// hexadecimal or not 32 bytes long. The default address is not touched.
    pub fn import_private_key(&mut self, private_key_hex: &str, label: &str) -> (r: Result<
        String,
        WalletError,
    >)
        requires
            old(self).wf(),
        ensures
            final(self).wf(),
            key_imported(
                *old(self),
                *final(self),
                private_key_hex.spec_bytes(),
                private_key_hex@,
                label@,
                r,
            ),
    {
        let bytes = match decode_hex(private_key_hex) {
            Ok(b) => b,
            Err(e) => {
                return Err(WalletError::InvalidHex(e));
            },
        };
        if bytes.len() != 32 {
            return Err(WalletError::InvalidKeyLength);
        }
        let mut secret = [0u8; 32];
        let mut i: usize = 0;
        while i < 32
            invariant
                bytes@.len() == 32,
                i <= 32,
                forall|j: int| 0 <= j < i ==> secret@[j] == bytes@[j],
            decreases 32 - i,
        {
            secret[i] = bytes[i];
            i = i + 1;
        }
        proof {
            assert(secret@ =~= bytes@);
        }
        let public_key = ed25519_public_key(&secret);
        let address = Address::from_public_key(&public_key);
        let address_str = address.to_string();
        let now = now_unix_seconds() as u64;
        let entry = WalletEntry {
            address: address_str.clone(),
            private_key_hex: String::from_str(private_key_hex),
            label: String::from_str(label),
            balance: 0,
            total_earned: 0,
            tasks_completed: 0,
            created_at: now,
            last_updated: now,
        };
        self.addresses.insert(address_str.clone(), entry);
        proof {
            assert(self.addresses().remove(address_str@) =~= old(self).addresses().remove(address_str@));
        }
        Ok(address_str)
    }
}


/// `new` is `old` with one more address `a` (or `a` renewed) holding a
/// fresh random secret key: the address text is the hexadecimal public key
/// of a 32-byte secret whose hexadecimal text the entry keeps. The first
/// address of a wallet without a default becomes the default.
pub open spec fn address_added(old: WalletFile, new: WalletFile, a: String, label: Seq<char>) -> bool {
    &&& exists|secret: Seq<u8>|
        secret.len() == 32 && a@ == hex_encode(#[trigger] ed25519_public_key_of(secret)) && fresh_entry(
            new.addresses()[a@],
            a@,
            hex_encode(secret),
            label,
        )
    &&& new.addresses().contains_key(a@)
    &&& new.addresses().remove(a@) == old.addresses().remove(a@)
    &&& !old.addresses().contains_key(a@) ==> new.address_list().len() == old.address_list().len() + 1
    &&& old.addresses().contains_key(a@) ==> new.address_list().len() == old.address_list().len()
    &&& old.default_address is None ==> new.default_address == Some(a)
    &&& old.default_address is Some ==> new.default_address == old.default_address
    &&& new.same_header(old)
}

/// Crediting `amount` to `address` cannot overflow its counters.
pub open spec fn can_credit(w: WalletFile, address: Seq<char>, amount: u64) -> bool {
    w.addresses().contains_key(address) ==> {
        let e = w.addresses()[address];
        &&& e.balance + amount <= u64::MAX
        &&& e.total_earned + amount <= u64::MAX
        &&& e.tasks_completed + 1 <= u64::MAX
    }
}

/// The outcome of crediting a task's earnings to `address`: refused with
/// nothing changed when the wallet does not hold it; otherwise its balance
/// and total earned grow by the amount and its task count by one.
pub open spec fn balance_credited(
    old: WalletFile,
    new: WalletFile,
    address: Seq<char>,
    amount: u64,
    r: Result<(), WalletError>,
) -> bool {
    &&& !old.addresses().contains_key(address) ==> r == Err::<(), WalletError>(WalletError::AddressNotFound)
        && new.addresses() == old.addresses()
    &&& old.addresses().contains_key(address) ==> {
        let e = old.addresses()[address];
        let n = new.addresses()[address];
        &&& r is Ok
        &&& new.addresses().contains_key(address)
        &&& new.addresses().remove(address) == old.addresses().remove(address)
        &&& n.address == e.address
        &&& n.private_key_hex == e.private_key_hex
        &&& n.label == e.label
        &&& n.balance == e.balance + amount
        &&& n.total_earned == e.total_earned + amount
        &&& n.tasks_completed == e.tasks_completed + 1
        &&& n.created_at == e.created_at
    }
    &&& new.default_address == old.default_address
    &&& new.same_header(old)
}

/// The outcome of importing a secret key given as text (its bytes `text`,
/// its characters `chars`): refused with nothing changed when the text is
/// not hexadecimal or not 32 bytes long; otherwise the address of the key's
/// public key is added with the text kept as given. The default address is
/// not touched.
pub open spec fn key_imported(
    old: WalletFile,
    new: WalletFile,
    text: Seq<u8>,
    chars: Seq<char>,
    label: Seq<char>,
    r: Result<String, WalletError>,
) -> bool {
    &&& new.default_address == old.default_address
    &&& new.same_header(old)
    &&& r is Err ==> new.addresses() == old.addresses()
    &&& match hex_decode_result(text) {
        Err(e) => r == Err::<String, WalletError>(WalletError::InvalidHex(e)),
        Ok(key) => if key.len() != 32 {
            r == Err::<String, WalletError>(WalletError::InvalidKeyLength)
        } else {
            r matches Ok(a) && {
                &&& a@ == hex_encode(ed25519_public_key_of(key))
                &&& new.addresses().contains_key(a@)
                &&& fresh_entry(new.addresses()[a@], a@, chars, label)
                &&& new.addresses().remove(a@) == old.addresses().remove(a@)
            }
        },
    }
}

/// Law: a key that was imported is what exporting its address gives back,
/// under the address that the import reported.
pub proof fn lemma_import_then_export(
    old: WalletFile,
    new: WalletFile,
    text: Seq<u8>,
    chars: Seq<char>,
    label: Seq<char>,
    r: Result<String, WalletError>,
)
    requires
        key_imported(old, new, text, chars, label, r),
        r is Ok,
    ensures
        new.addresses().contains_key(r->Ok_0@),
        new.addresses()[r->Ok_0@].private_key_hex@ == chars,
        new.addresses()[r->Ok_0@].label@ == label,
{
}

/// The wallet together with the path of the file it is kept in. Keeping
/// the file up to date is left to the caller.
#[derive(Debug)]
pub struct WalletManager {
    pub wallet_file: WalletFile,
    pub wallet_path: String,
}

impl WalletManager {
    /// The wallet is consistent.
    pub open spec fn wf(self) -> bool {
        self.wallet_file.wf()
    }

    /// A manager of the wallet kept at `wallet_path`.
    pub fn new(wallet_path: String, wallet_file: WalletFile) -> (r: WalletManager)
        ensures
            r.wallet_path == wallet_path,
            r.wallet_file == wallet_file,
    {
        WalletManager { wallet_file, wallet_path }
    }

    /// The address to work with: the hinted one when the wallet holds it;
    /// without a hint, the default address's entry when there is one;
    /// otherwise a newly added address.
    pub fn get_or_create_address(&mut self, address_hint: Option<String>, label: &str) -> (r: Result<
        String,
        WalletError,
    >)
        requires
            old(self).wf(),
        ensures
            final(self).wf(),
            final(self).wallet_path == old(self).wallet_path,
            match address_hint {
                Some(h) => if old(self).wallet_file.addresses().contains_key(h@) {
                    r == Ok::<String, WalletError>(h) && final(self).wallet_file == old(self).wallet_file
                } else {
                    r matches Ok(a) && address_added(old(self).wallet_file, final(self).wallet_file, a, label@)
                },
                None => match old(self).wallet_file.default_address {
                    Some(d) => if old(self).wallet_file.addresses().contains_key(d@) {
                        r == Ok::<String, WalletError>(old(self).wallet_file.addresses()[d@].address)
                            && final(self).wallet_file == old(self).wallet_file
                    } else {
                        r matches Ok(a) && address_added(old(self).wallet_file, final(self).wallet_file, a, label@)
                    },
                    None => r matches Ok(a) && address_added(
                        old(self).wallet_file,
                        final(self).wallet_file,
                        a,
                        label@,
                    ),
                },
            },
    {
        match address_hint {
            Some(addr) => {
                if self.wallet_file.get_address(addr.as_str()).is_some() {
                    Ok(addr)
                } else {
                    self.wallet_file.add_address(label)
                }
            },
            None => {
                match self.wallet_file.get_default_address() {
                    Some(entry) => Ok(entry.address.clone()),
                    None => self.wallet_file.add_address(label),
                }
            },
        }
    }

    /// Credits a task's earnings to an address of the wallet.
    pub fn update_address_balance(&mut self, address: &str, amount: u64) -> (r: Result<(), WalletError>)
        requires
            old(self).wf(),
            can_credit(old(self).wallet_file, address@, amount),
        ensures
            final(self).wf(),
            final(self).wallet_path == old(self).wallet_path,
            balance_credited(old(self).wallet_file, final(self).wallet_file, address@, amount, r),
    {
        self.wallet_file.update_balance(address, amount)
    }

    /// The entry of an address.
    pub fn get_address_info(&self, address: &str) -> (r: Option<&WalletEntry>)
        requires
            self.wf(),
        ensures
            match r {
                Some(e) => self.wallet_file.addresses().contains_key(address@) && *e
                    == self.wallet_file.addresses()[address@],
                None => !self.wallet_file.addresses().contains_key(address@),
            },
    {
        self.wallet_file.get_address(address)
    }

    /// Every address with its entry, each once, in the order added.
    pub fn list_addresses(&self) -> (r: Vec<(&String, &WalletEntry)>)
        requires
            self.wf(),
        ensures
            r@.len() == self.wallet_file.address_list().len(),
            forall|i: int|
                0 <= i < r@.len() ==> *(#[trigger] r@[i]).0 == self.wallet_file.address_list()[i].0
                    && *r@[i].1 == self.wallet_file.address_list()[i].1,
    {
        self.wallet_file.list_addresses()
    }

    /// (address, secret key text, label) of every address, in the order added.
    pub fn export_keys(&self) -> (r: Vec<(String, String, String)>)
        requires
            self.wf(),
        ensures
            r@.len() == self.wallet_file.address_list().len(),
            forall|i: int|
                0 <= i < r@.len() ==> (#[trigger] r@[i]).0 == self.wallet_file.address_list()[i].0
                    && r@[i].1 == self.wallet_file.address_list()[i].1.private_key_hex && r@[i].2
                    == self.wallet_file.address_list()[i].1.label,
    {
        self.wallet_file.export_all_keys()
    }

    /// Adds the address of a secret key given as hexadecimal text.
    pub fn import_key(&mut self, private_key_hex: &str, label: &str) -> (r: Result<String, WalletError>)
        requires
            old(self).wf(),
        ensures
            final(self).wf(),
            final(self).wallet_path == old(self).wallet_path,
            key_imported(
                old(self).wallet_file,
                final(self).wallet_file,
                private_key_hex.spec_bytes(),
                private_key_hex@,
                label@,
                r,
            ),
    {
        self.wallet_file.import_private_key(private_key_hex, label)
    }

    /// Adds a new address with a fresh random secret key.
    pub fn add_address(&mut self, label: &str) -> (r: Result<String, WalletError>)
        requires
            old(self).wf(),
        ensures
            final(self).wf(),
            final(self).wallet_path == old(self).wallet_path,
            r matches Ok(a) && address_added(old(self).wallet_file, final(self).wallet_file, a, label@),
    {
        self.wallet_file.add_address(label)
    }

    /// The default address, if one is set.
    pub fn get_default_address(&self) -> (r: Option<String>)
        ensures
            r == self.wallet_file.default_address,
    {
        self.wallet_file.default_address.clone()
    }

    /// Adds the address of a secret key given as hexadecimal text.
    pub fn import_private_key(&mut self, private_key: &str, label: &str) -> (r: Result<String, WalletError>)
        requires
            old(self).wf(),
        ensures
            final(self).wf(),
            final(self).wallet_path == old(self).wallet_path,
            key_imported(
                old(self).wallet_file,
                final(self).wallet_file,
                private_key.spec_bytes(),
                private_key@,
                label@,
                r,
            ),
    {
        self.wallet_file.import_private_key(private_key, label)
    }

    /// The secret key text of an address.
    pub fn export_private_key(&self, address: &str) -> (r: Result<String, WalletError>)
        requires
            self.wf(),
        ensures
            self.wallet_file.addresses().contains_key(address@) ==> (r matches Ok(k) && k
                == self.wallet_file.addresses()[address@].private_key_hex),
            !self.wallet_file.addresses().contains_key(address@) ==> r == Err::<String, WalletError>(
                WalletError::AddressNotFound,
            ),
    {
        self.wallet_file.export_private_key(address)
    }
}

} // verus!
