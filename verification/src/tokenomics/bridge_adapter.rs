//! The bridge between PAR and the compute credits of outside platforms: a
//! ledger of credits per user and platform, transfers out to platforms,
//! and the platforms' liquidity pools.
use vstd::prelude::*;
use crate::address::Address;
use crate::sys::{new_uuid, now_unix_seconds};
use crate::text::text;
use crate::vecmap::{amount_of, entries_map, KeyEq, VecMap};

verus! {

/// Why a bridge operation was refused.
#[derive(Debug, Clone, Copy, PartialEq, Eq)]
pub enum BridgeError {
    /// No conversion rates are set for the platform.
    PlatformNotSupported,
    /// The user holds fewer credits on the platform than asked for.
    InsufficientCredits,
    /// No bridge to the platform is set up.
    BridgeNotAvailable,
    /// The outside transaction could not be verified.
    VerificationFailed,
}

/// The platforms PAR can be bridged to.
#[derive(Debug, Clone, Copy, PartialEq, Eq, Hash, Structural)]
pub enum Platform {
    Filecoin,
    RenderNetwork,
    AWS,
    GoogleCloud,
    AzureCloud,
    AkashNetwork,
    Ethereum,
    Polygon,
    Solana,
    EdgeNetwork,
}

impl View for Platform {
    type V = Platform;

    open spec fn view(&self) -> Platform {
        *self
    }
}

impl KeyEq for Platform {
    fn key_eq(&self, other: &Self) -> (r: bool) {
        *self == *other
    }
}

impl KeyEq for (Address, Platform) {
    fn key_eq(&self, other: &Self) -> (r: bool) {
        self.0.equals(&other.0) && self.1 == other.1
    }
}

/// A platform's display name.
pub open spec fn platform_name(p: Platform) -> Seq<char> {
    match p {
        Platform::Filecoin => "Filecoin"@,
        Platform::RenderNetwork => "Render Network"@,
        Platform::AWS => "AWS"@,
        Platform::GoogleCloud => "Google Cloud"@,
        Platform::AzureCloud => "Azure"@,
        Platform::AkashNetwork => "Akash Network"@,
        Platform::Ethereum => "Ethereum"@,
        Platform::Polygon => "Polygon"@,
        Platform::Solana => "Solana"@,
        Platform::EdgeNetwork => "Edge Network"@,
    }
}

impl Platform {
    /// The platform's display name.
    pub fn name(&self) -> (r: &'static str)
        ensures
            r@ == platform_name(*self),
    {
        match self {
            Platform::Filecoin => "Filecoin",
            Platform::RenderNetwork => "Render Network",
            Platform::AWS => "AWS",
            Platform::GoogleCloud => "Google Cloud",
            Platform::AzureCloud => "Azure",
            Platform::AkashNetwork => "Akash Network",
            Platform::Ethereum => "Ethereum",
            Platform::Polygon => "Polygon",
            Platform::Solana => "Solana",
            Platform::EdgeNetwork => "Edge Network",
        }
    }
}

/// Credits that a PAR amount converts to on a platform.
#[derive(Debug, Clone, Copy, PartialEq, Eq)]
pub struct PlatformCredits {
    pub total_credits: u64,
    pub cpu_credits: u64,
    pub gpu_credits: u64,
    pub storage_credits: u64,
    pub bandwidth_credits: u64,
}

/// The state of a transfer to a platform.
#[derive(Debug, Clone, Copy, PartialEq, Eq, Structural)]
pub enum TransferStatus {
    Pending,
    InProgress,
    Completed,
    Failed,
}

/// The state of a platform bridge's connection.
#[derive(Debug, Clone, Copy, PartialEq, Eq, Structural)]
pub enum BridgeStatus {
    Connected,
    Disconnected,
    Maintenance,
}

/// The connection to one platform.
#[derive(Debug)]
pub struct PlatformBridge {
    pub platform_id: String,
    pub api_endpoint: String,
    pub connection_status: BridgeStatus,
}

impl PlatformBridge {
    /// A connected bridge.
    pub fn new(platform_id: String, api_endpoint: String) -> (r: PlatformBridge)
        ensures
            r.platform_id == platform_id,
            r.api_endpoint == api_endpoint,
            r.connection_status == BridgeStatus::Connected,
    {
        PlatformBridge { platform_id, api_endpoint, connection_status: BridgeStatus::Connected }
    }

    /// Whether the platform accepts an outside transaction: it names a
    /// transaction hash.
    pub fn verify_external_transaction(&self, transaction: &ExternalTransaction) -> (r: bool)
        ensures
            r == (transaction.tx_hash@.len() > 0),
    {
        transaction.tx_hash.unicode_len() > 0
    }
}

/// A transfer of credits out to a platform.
#[derive(Debug)]
pub struct CrossPlatformTransfer {
    pub id: u128,
    pub user: Address,
    pub platform: Platform,
    pub credits: u64,
    pub external_address: String,
    pub status: TransferStatus,
    /// Unix time in seconds.
    pub created_at: i64,
    pub completed_at: Option<i64>,
    pub transaction_hash: Option<String>,
}

/// A transaction made on an outside platform.
#[derive(Debug)]
pub struct ExternalTransaction {
    pub tx_hash: String,
    pub from_address: String,
    pub to_address: String,
    pub amount: u64,
    pub platform: Platform,
    /// Unix time in seconds.
    pub timestamp: i64,
}

/// The bridge's totals.
#[derive(Debug)]
pub struct BridgeStats {
    pub total_platforms: usize,
    pub total_pending_transfers: usize,
    pub total_liquidity: u64,
    pub active_bridges: Vec<Platform>,
}

/// The bridges set up by `initialize`, with their ids and endpoints.
pub open spec fn initial_bridges() -> Seq<(Platform, Seq<char>, Seq<char>)> {
    seq![
        (Platform::Filecoin, "filecoin"@, "https://api.filecoin.io"@),
        (Platform::RenderNetwork, "render"@, "https://api.render.network"@),
        (Platform::AWS, "aws"@, "https://api.aws.amazon.com"@),
        (Platform::GoogleCloud, "gcp"@, "https://api.cloud.google.com"@),
        (Platform::AkashNetwork, "akash"@, "https://api.akash.network"@),
        (Platform::Ethereum, "ethereum"@, "https://api.ethereum.org"@),
    ]
}

/// The platforms with conversion rates after `initialize`, with their base
/// fees in base units.
pub open spec fn initial_fees() -> Map<Platform, u64> {
    map![Platform::Filecoin => 1_000_000u64, Platform::RenderNetwork => 5_000_000u64, Platform::AWS => 2_000_000u64]
}

/// The liquidity each bridged platform's pool starts with: 100 PAR.
pub const INITIAL_LIQUIDITY: u64 = 10_000_000_000;

/// The pools `initialize` sets: one of `INITIAL_LIQUIDITY` for each of the
/// six bridged platforms.
pub open spec fn initial_liquidity() -> Map<Platform, u64> {
    map![
        Platform::Filecoin => INITIAL_LIQUIDITY,
        Platform::RenderNetwork => INITIAL_LIQUIDITY,
        Platform::AWS => INITIAL_LIQUIDITY,
        Platform::GoogleCloud => INITIAL_LIQUIDITY,
        Platform::AkashNetwork => INITIAL_LIQUIDITY,
        Platform::Ethereum => INITIAL_LIQUIDITY,
    ]
}

/// The cross-platform bridge.
#[derive(Debug)]
pub struct BridgeAdapter {
    platform_bridges: VecMap<Platform, PlatformBridge>,
    pending_transfers: VecMap<u128, CrossPlatformTransfer>,
    platform_fees: VecMap<Platform, u64>,
    liquidity_pools: VecMap<Platform, u64>,
    credit_balances: VecMap<(Address, Platform), u64>,
}

impl BridgeAdapter {
    /// The bridges by platform.
    pub closed spec fn bridges(self) -> Map<Platform, PlatformBridge> {
        self.platform_bridges@
    }

    /// The bridged platforms in the order they were set up.
    pub closed spec fn bridge_order(self) -> Seq<Platform> {
        self.platform_bridges.entries().map_values(|e: (Platform, PlatformBridge)| e.0)
    }

    /// The transfers by id.
    pub closed spec fn transfers(self) -> Map<u128, CrossPlatformTransfer> {
        self.pending_transfers@
    }

    /// The platforms with conversion rates, with their base fees.
    pub closed spec fn fees(self) -> Map<Platform, u64> {
        self.platform_fees@
    }

    /// The liquidity of each platform's pool.
    pub closed spec fn liquidity(self) -> Map<Platform, u64> {
        self.liquidity_pools@
    }

    /// The total liquidity over all pools.
    pub closed spec fn total_liquidity(self) -> int {
        self.liquidity_pools.sum()
    }

    /// The credits each user holds on each platform.
    pub closed spec fn credits(self) -> Map<(Seq<u8>, Platform), u64> {
        self.credit_balances@
    }

    /// The maps are well formed.
    pub closed spec fn wf(self) -> bool {
        &&& self.platform_bridges.wf()
        &&& self.pending_transfers.wf()
        &&& self.platform_fees.wf()
        &&& self.liquidity_pools.wf()
        &&& self.credit_balances.wf()
    }

    /// A bridge with no platforms, transfers or credits.
    pub fn new() -> (r: BridgeAdapter)
        ensures
            r.wf(),
            r.bridges() == Map::<Platform, PlatformBridge>::empty(),
            r.transfers() == Map::<u128, CrossPlatformTransfer>::empty(),
            r.fees() == Map::<Platform, u64>::empty(),
            r.liquidity() == Map::<Platform, u64>::empty(),
            r.credits() == Map::<(Seq<u8>, Platform), u64>::empty(),
    {
        BridgeAdapter {
            platform_bridges: VecMap::new(),
            pending_transfers: VecMap::new(),
            platform_fees: VecMap::new(),
            liquidity_pools: VecMap::new(),
            credit_balances: VecMap::new(),
        }
    }

    fn add_bridge(&mut self, platform: Platform, bridge: PlatformBridge)
        requires
            old(self).wf(),
        ensures
            final(self).wf(),
            final(self).bridges() == old(self).bridges().insert(platform, bridge),
            !old(self).bridges().contains_key(platform) ==> final(self).bridge_order() == old(
                self,
            ).bridge_order().push(platform),
            final(self).liquidity() == old(self).liquidity(),
            final(self).total_liquidity() == old(self).total_liquidity(),
            final(self).fees() == old(self).fees(),
            final(self).transfers() == old(self).transfers(),
            final(self).credits() == old(self).credits(),
    {
        proof {
            self.platform_bridges.lemma_contains_has_key(platform);
        }
        let ghost e0 = self.platform_bridges.entries();
        self.platform_bridges.insert(platform, bridge);
        proof {
            if !old(self).bridges().contains_key(platform) {
                assert(self.bridge_order() =~= old(self).bridge_order().push(platform));
            }
        }
    }

    fn add_initial_pool(&mut self, platform: Platform)
        requires
            old(self).wf(),
        ensures
            final(self).wf(),
            final(self).liquidity() == old(self).liquidity().insert(platform, INITIAL_LIQUIDITY),
            !old(self).liquidity().contains_key(platform) ==> final(self).total_liquidity()
                == old(self).total_liquidity() + INITIAL_LIQUIDITY,
            final(self).bridges() == old(self).bridges(),
            final(self).bridge_order() == old(self).bridge_order(),
            final(self).fees() == old(self).fees(),
            final(self).transfers() == old(self).transfers(),
            final(self).credits() == old(self).credits(),
    {
        let ghost q0 = self.liquidity_pools;
        self.liquidity_pools.insert(platform, INITIAL_LIQUIDITY);
        proof {
            VecMap::lemma_sum_insert(q0, self.liquidity_pools, platform, INITIAL_LIQUIDITY);
        }
    }

    /// Sets up the six platform bridges, the rates of Filecoin, Render
    /// Network and AWS, and a pool of 100 PAR for each bridged platform.
    pub fn initialize(&mut self)
        requires
            old(self).wf(),
        ensures
            final(self).wf(),
            forall|i: int|
                0 <= i < initial_bridges().len() ==> {
                    let (p, id, endpoint) = #[trigger] initial_bridges()[i];
                    &&& final(self).bridges().contains_key(p)
                    &&& final(self).bridges()[p].platform_id@ == id
                    &&& final(self).bridges()[p].api_endpoint@ == endpoint
                    &&& final(self).bridges()[p].connection_status == BridgeStatus::Connected
                    &&& final(self).liquidity().contains_key(p)
                    &&& final(self).liquidity()[p] == INITIAL_LIQUIDITY
                },
            final(self).fees() == old(self).fees().union_prefer_right(initial_fees()),
            final(self).liquidity() == old(self).liquidity().union_prefer_right(initial_liquidity()),
            final(self).bridges().dom() == old(self).bridges().dom().union(initial_liquidity().dom()),
            old(self).liquidity().dom().len() == 0 ==> final(self).total_liquidity() == 6 * INITIAL_LIQUIDITY,
            old(self).bridges().dom().len() == 0 ==> final(self).bridge_order() == seq![
                Platform::Filecoin,
                Platform::RenderNetwork,
                Platform::AWS,
                Platform::GoogleCloud,
                Platform::AkashNetwork,
                Platform::Ethereum,
            ],
            final(self).transfers() == old(self).transfers(),
            final(self).credits() == old(self).credits(),
    {
        let ghost b0 = self.platform_bridges@;
        let ghost o0 = self.bridge_order();
        proof {
            self.platform_bridges.lemma_entries_view();
        }
        let ghost l0 = self.liquidity_pools@;
        self.add_bridge(
            Platform::Filecoin,
            PlatformBridge::new(text("filecoin"), text("https://api.filecoin.io")),
        );
        self.add_bridge(
            Platform::RenderNetwork,
            PlatformBridge::new(text("render"), text("https://api.render.network")),
        );
        self.add_bridge(Platform::AWS, PlatformBridge::new(text("aws"), text("https://api.aws.amazon.com")));
        self.add_bridge(
            Platform::GoogleCloud,
            PlatformBridge::new(text("gcp"), text("https://api.cloud.google.com")),
        );
        self.add_bridge(
            Platform::AkashNetwork,
            PlatformBridge::new(text("akash"), text("https://api.akash.network")),
        );
        self.add_bridge(
            Platform::Ethereum,
            PlatformBridge::new(text("ethereum"), text("https://api.ethereum.org")),
        );
        let ghost f0 = self.platform_fees@;
        self.platform_fees.insert(Platform::Filecoin, 1_000_000);
        self.platform_fees.insert(Platform::RenderNetwork, 5_000_000);
        self.platform_fees.insert(Platform::AWS, 2_000_000);
        proof {
            assert(self.platform_fees@ =~= f0.union_prefer_right(initial_fees()));
        }
        let ghost q0 = self.liquidity_pools;
        proof {
            q0.lemma_entries_view();
            if q0@.dom().len() == 0 {
                assert(q0.entries() =~= Seq::<(Platform, u64)>::empty());
                q0.lemma_sum_empty();
            }
        }
        self.add_initial_pool(Platform::Filecoin);
        self.add_initial_pool(Platform::RenderNetwork);
        self.add_initial_pool(Platform::AWS);
        self.add_initial_pool(Platform::GoogleCloud);
        self.add_initial_pool(Platform::AkashNetwork);
        self.add_initial_pool(Platform::Ethereum);
        proof {
            assert(self.liquidity_pools@ =~= q0@.union_prefer_right(initial_liquidity()));
            assert(self.platform_bridges@.dom() =~= b0.dom().union(initial_liquidity().dom()));
            if b0.dom().len() == 0 {
                assert(o0 =~= Seq::<Platform>::empty());
            }
        }
        proof {
            reveal_strlit("filecoin");
            reveal_strlit("render");
            reveal_strlit("aws");
            reveal_strlit("gcp");
            reveal_strlit("akash");
            reveal_strlit("ethereum");
            assert forall|i: int| 0 <= i < initial_bridges().len() implies {
                let (p, id, endpoint) = #[trigger] initial_bridges()[i];
                &&& self.bridges().contains_key(p)
                &&& self.bridges()[p].platform_id@ == id
                &&& self.bridges()[p].api_endpoint@ == endpoint
                &&& self.bridges()[p].connection_status == BridgeStatus::Connected
                &&& self.liquidity().contains_key(p)
                &&& self.liquidity()[p] == INITIAL_LIQUIDITY
            } by {
                if i == 0 {
                } else if i == 1 {
                } else if i == 2 {
                } else if i == 3 {
                } else if i == 4 {
                } else {
                }
            }
        }
    }

    /// Credits a user with the credits a PAR amount converts to on a
    /// platform (`credits`, as the platform's rates give them); refused
    /// when the platform has no rates.
    pub fn convert_to_credits(&mut self, user: &Address, platform: Platform, credits: PlatformCredits) -> (r: Result<
        PlatformCredits,
        BridgeError,
    >)
        requires
            old(self).wf(),
            old(self).fees().contains_key(platform) ==> amount_of(old(self).credits(), (user@, platform))
                + credits.total_credits <= u64::MAX,
        ensures
            final(self).wf(),
            !old(self).fees().contains_key(platform) ==> r == Err::<PlatformCredits, BridgeError>(
                BridgeError::PlatformNotSupported,
            ) && *final(self) == *old(self),
            old(self).fees().contains_key(platform) ==> r == Ok::<PlatformCredits, BridgeError>(credits)
                && final(self).credits() == old(self).credits().insert(
                (user@, platform),
                (amount_of(old(self).credits(), (user@, platform)) + credits.total_credits) as u64,
            ),
            final(self).bridges() == old(self).bridges(),
            final(self).transfers() == old(self).transfers(),
            final(self).fees() == old(self).fees(),
            final(self).liquidity() == old(self).liquidity(),
    {
        if !self.platform_fees.contains_key(&platform) {
            return Err(BridgeError::PlatformNotSupported);
        }
        let key = (*user, platform);
        let current = match self.credit_balances.get(&key) {
            Some(b) => *b,
            None => 0,
        };
        self.credit_balances.insert(key, current + credits.total_credits);
        Ok(credits)
    }

    /// Sends credits of a user out to an address on a platform. Refused
    /// when the user holds fewer credits there, then when no bridge to the
    /// platform is set up; otherwise the credits leave the user's balance
    /// and a pending transfer is filed under a fresh id.
    pub fn transfer_to_platform(&mut self, user: &Address, platform: Platform, credits: u64, external_address: String) -> (r:
        Result<u128, BridgeError>)
        requires
            old(self).wf(),
        ensures
            final(self).wf(),
            amount_of(old(self).credits(), (user@, platform)) < credits ==> r == Err::<u128, BridgeError>(
                BridgeError::InsufficientCredits,
            ) && *final(self) == *old(self),
            amount_of(old(self).credits(), (user@, platform)) >= credits && !old(self).bridges().contains_key(
                platform,
            ) ==> r == Err::<u128, BridgeError>(BridgeError::BridgeNotAvailable) && *final(self) == *old(self),
            amount_of(old(self).credits(), (user@, platform)) >= credits && old(self).bridges().contains_key(
                platform,
            ) ==> (r matches Ok(id) && final(self).credits() == old(self).credits().insert(
                (user@, platform),
                (amount_of(old(self).credits(), (user@, platform)) - credits) as u64,
            ) && final(self).transfers().contains_key(id) && {
                let t = final(self).transfers()[id];
                &&& t.id == id
                &&& t.user == *user
                &&& t.platform == platform
                &&& t.credits == credits
                &&& t.external_address == external_address
                &&& t.status == TransferStatus::Pending
                &&& t.completed_at is None
                &&& t.transaction_hash is None
            } && final(self).transfers() == old(self).transfers().insert(id, final(self).transfers()[id])),
            final(self).bridges() == old(self).bridges(),
            final(self).fees() == old(self).fees(),
            final(self).liquidity() == old(self).liquidity(),
    {
        let key = (*user, platform);
        let available = match self.credit_balances.get(&key) {
            Some(b) => *b,
            None => 0,
        };
        if available < credits {
            return Err(BridgeError::InsufficientCredits);
        }
        if !self.platform_bridges.contains_key(&platform) {
            return Err(BridgeError::BridgeNotAvailable);
        }
        let transfer_id = new_uuid();
        let transfer = CrossPlatformTransfer {
            id: transfer_id,
            user: *user,
            platform,
            credits,
            external_address,
            status: TransferStatus::Pending,
            created_at: now_unix_seconds(),
            completed_at: None,
            transaction_hash: None,
        };
        self.credit_balances.insert(key, available - credits);
        self.pending_transfers.insert(transfer_id, transfer);
        Ok(transfer_id)
    }

    /// Takes PAR back from a platform: the outside transaction must be
    /// verified by the platform's bridge; `par_amount` (what its credits
    /// convert to at the platform's rates) then joins the platform's pool.
    pub fn bridge_from_platform(
        &mut self,
        platform: Platform,
        external_transaction: &ExternalTransaction,
        par_amount: u64,
    ) -> (r: Result<u64, BridgeError>)
        requires
            old(self).wf(),
            old(self).bridges().contains_key(platform) && external_transaction.tx_hash@.len() > 0
                ==> old(self).fees().contains_key(platform),
            old(self).liquidity().contains_key(platform) ==> old(self).liquidity()[platform] + par_amount
                <= u64::MAX,
        ensures
            final(self).wf(),
            !old(self).bridges().contains_key(platform) ==> r == Err::<u64, BridgeError>(
                BridgeError::BridgeNotAvailable,
            ) && *final(self) == *old(self),
            old(self).bridges().contains_key(platform) && external_transaction.tx_hash@.len() == 0 ==> r
                == Err::<u64, BridgeError>(BridgeError::VerificationFailed) && *final(self) == *old(self),
            old(self).bridges().contains_key(platform) && external_transaction.tx_hash@.len() > 0 ==> r == Ok::<
                u64,
                BridgeError,
            >(par_amount) && final(self).liquidity() == (if old(self).liquidity().contains_key(platform) {
                old(self).liquidity().insert(platform, (old(self).liquidity()[platform] + par_amount) as u64)
            } else {
                old(self).liquidity()
            }),
            final(self).bridges() == old(self).bridges(),
            final(self).transfers() == old(self).transfers(),
            final(self).fees() == old(self).fees(),
            final(self).credits() == old(self).credits(),
    {
        let verified = match self.platform_bridges.get(&platform) {
            Some(bridge) => bridge.verify_external_transaction(external_transaction),
            None => {
                return Err(BridgeError::BridgeNotAvailable);
            },
        };
        if !verified {
            return Err(BridgeError::VerificationFailed);
        }
        match self.liquidity_pools.get(&platform) {
            Some(l) => {
                let total = *l + par_amount;
                self.liquidity_pools.insert(platform, total);
            },
            None => {},
        }
        Ok(par_amount)
    }

    /// The base fee of a platform with conversion rates, if it has them.
    pub fn platform_fee(&self, platform: &Platform) -> (r: Option<u64>)
        requires
            self.wf(),
        ensures
            r == (if self.fees().contains_key(*platform) {
                Some(self.fees()[*platform])
            } else {
                None::<u64>
            }),
    {
        match self.platform_fees.get(platform) {
            Some(f) => Some(*f),
            None => None,
        }
    }

    /// The liquidity of a platform's pool, if it has one.
    pub fn pool_liquidity(&self, platform: &Platform) -> (r: Option<u64>)
        requires
            self.wf(),
        ensures
            r == (if self.liquidity().contains_key(*platform) {
                Some(self.liquidity()[*platform])
            } else {
                None::<u64>
            }),
    {
        match self.liquidity_pools.get(platform) {
            Some(l) => Some(*l),
            None => None,
        }
    }

    /// Whether a bridge to the platform is set up.
    pub fn has_bridge(&self, platform: &Platform) -> (r: bool)
        requires
            self.wf(),
        ensures
            r == self.bridges().contains_key(*platform),
    {
        self.platform_bridges.contains_key(platform)
    }

    /// The credits a user holds on a platform.
    pub fn get_credit_balance(&self, user: &Address, platform: &Platform) -> (r: u64)
        requires
            self.wf(),
        ensures
            r == amount_of(self.credits(), (user@, *platform)),
    {
        let key = (*user, *platform);
        match self.credit_balances.get(&key) {
            Some(b) => *b,
            None => 0,
        }
    }

    /// The credits a user holds, by platform.
    pub fn get_all_platform_balances(&self, user: &Address) -> (r: VecMap<Platform, u64>)
        requires
            self.wf(),
        ensures
            r.wf(),
            r@ == Map::new(
                |p: Platform| self.credits().contains_key((user@, p)),
                |p: Platform| self.credits()[(user@, p)],
            ),
    {
        let ghost es = self.credit_balances.entries();
        proof {
            self.credit_balances.lemma_entries_view();
        }
        let mut r: VecMap<Platform, u64> = VecMap::new();
        let n = self.credit_balances.len();
        let mut i: usize = 0;
        while i < n
            invariant
                self.wf(),
                es == self.credit_balances.entries(),
                n == es.len(),
                i <= n,
                r.wf(),
                forall|p: Platform| #[trigger]
                    r@.contains_key(p) <==> exists|j: int| 0 <= j < i && (#[trigger] es[j]).0@ == (user@, p),
                forall|p: Platform| #[trigger]
                    r@.contains_key(p) ==> self.credits().contains_key((user@, p)) && r@[p] == self.credits()[(
                    user@,
                    p,
                )],
            decreases n - i,
        {
            let (key, balance) = self.credit_balances.entry_at(i);
            proof {
                self.credit_balances.lemma_entry_in_map(i as int);
            }
            if key.0.equals(user) {
                r.insert(key.1, *balance);
            }
            i = i + 1;
            proof {
                assert forall|p: Platform| #[trigger]
                    r@.contains_key(p) <==> exists|j: int| 0 <= j < i && (#[trigger] es[j]).0@ == (user@, p) by {
                    if exists|j: int| 0 <= j < i && (#[trigger] es[j]).0@ == (user@, p) {
                        let j = choose|j: int| 0 <= j < i && (#[trigger] es[j]).0@ == (user@, p);
                        if j < i - 1 {
                            assert(exists|j2: int| 0 <= j2 < i - 1 && (#[trigger] es[j2]).0@ == (user@, p));
                        }
                    }
                }
            }
        }
        proof {
            assert(r@ =~= Map::new(
                |p: Platform| self.credits().contains_key((user@, p)),
                |p: Platform| self.credits()[(user@, p)],
            )) by {
                assert forall|p: Platform| self.credits().contains_key((user@, p)) implies r@.contains_key(p) by {
                    self.credit_balances.lemma_contains_has_key((user@, p));
                }
            }
        }
        r
    }

    /// The transfer with an id, if any.
    pub fn get_transfer_status(&self, transfer_id: &u128) -> (r: Option<&CrossPlatformTransfer>)
        requires
            self.wf(),
        ensures
            match r {
                Some(t) => self.transfers().contains_key(*transfer_id) && *t == self.transfers()[*transfer_id],
                None => !self.transfers().contains_key(*transfer_id),
            },
    {
        self.pending_transfers.get(transfer_id)
    }

    /// Sets the status and transaction hash of a transfer, stamping its
    /// completion time when it completed or failed; nothing happens when
    /// no transfer has that id.
    pub fn update_transfer_status(&mut self, transfer_id: u128, status: TransferStatus, transaction_hash: Option<String>)
        requires
            old(self).wf(),
        ensures
            final(self).wf(),
            !old(self).transfers().contains_key(transfer_id) ==> final(self).transfers() == old(self).transfers(),
            old(self).transfers().contains_key(transfer_id) ==> final(self).transfers().contains_key(transfer_id)
                && final(self).transfers() == old(self).transfers().insert(
                transfer_id,
                final(self).transfers()[transfer_id],
            ) && {
                let t = final(self).transfers()[transfer_id];
                let t0 = old(self).transfers()[transfer_id];
                &&& t.status == status
                &&& t.transaction_hash == transaction_hash
                &&& t.id == t0.id
                &&& t.user == t0.user
                &&& t.platform == t0.platform
                &&& t.credits == t0.credits
                &&& t.external_address == t0.external_address
                &&& t.created_at == t0.created_at
                &&& (status == TransferStatus::Completed || status == TransferStatus::Failed) ==> t.completed_at
                    is Some
                &&& !(status == TransferStatus::Completed || status == TransferStatus::Failed) ==> t.completed_at
                    == t0.completed_at
            },
            final(self).bridges() == old(self).bridges(),
            final(self).fees() == old(self).fees(),
            final(self).liquidity() == old(self).liquidity(),
            final(self).credits() == old(self).credits(),
    {
        match self.pending_transfers.remove(&transfer_id) {
            Some(t) => {
                let CrossPlatformTransfer {
                    id,
                    user,
                    platform,
                    credits,
                    external_address,
                    status: _,
                    created_at,
                    completed_at,
                    transaction_hash: _,
                } = t;
                let done = status == TransferStatus::Completed || status == TransferStatus::Failed;
                let completed_at = if done {
                    Some(now_unix_seconds())
                } else {
                    completed_at
                };
                self.pending_transfers.insert(
                    transfer_id,
                    CrossPlatformTransfer {
                        id,
                        user,
                        platform,
                        credits,
                        external_address,
                        status,
                        created_at,
                        completed_at,
                        transaction_hash,
                    },
                );
            },
            None => {},
        }
    }

    /// The number of bridged platforms and of transfers, the total
    /// liquidity, and the bridged platforms in the order they were set up.
    /// The total must fit in a `u64`.
    pub fn get_bridge_stats(&self) -> (r: BridgeStats)
        requires
            self.wf(),
            self.total_liquidity() <= u64::MAX,
        ensures
            r.total_platforms == self.bridges().dom().len(),
            r.total_platforms == self.bridge_order().len(),
            r.total_pending_transfers == self.transfers().dom().len(),
            r.total_liquidity == self.total_liquidity(),
            r.active_bridges@ == self.bridge_order(),
    {
        let ghost es = self.liquidity_pools.entries();
        let n = self.liquidity_pools.len();
        let mut total: u64 = 0;
        let mut i: usize = 0;
        while i < n
            invariant
                self.wf(),
                es == self.liquidity_pools.entries(),
                n == es.len(),
                i <= n,
                total == crate::vecmap::sum_entries(es.take(i as int)),
                self.total_liquidity() <= u64::MAX,
            decreases n - i,
        {
            proof {
                self.liquidity_pools.lemma_sum_prefix(i + 1, n as int);
                assert(es.take(n as int) =~= es);
                assert(es.take(i + 1).drop_last() =~= es.take(i as int));
            }
            let (_p, l) = self.liquidity_pools.entry_at(i);
            total = total + *l;
            i = i + 1;
        }
        proof {
            self.liquidity_pools.lemma_sum_prefix(n as int, n as int);
            assert(es.take(n as int) =~= es);
        }
        let ghost bs = self.platform_bridges.entries();
        let m = self.platform_bridges.len();
        let mut active: Vec<Platform> = Vec::new();
        let mut j: usize = 0;
        while j < m
            invariant
                bs == self.platform_bridges.entries(),
                m == bs.len(),
                j <= m,
                active@ == bs.take(j as int).map_values(|e: (Platform, PlatformBridge)| e.0),
            decreases m - j,
        {
            let (p, _b) = self.platform_bridges.entry_at(j);
            active.push(*p);
            j = j + 1;
            proof {
                assert(active@ =~= bs.take(j as int).map_values(|e: (Platform, PlatformBridge)| e.0));
            }
        }
        proof {
            assert(bs.take(m as int) =~= bs);
        }
        BridgeStats {
            total_platforms: m,
            total_pending_transfers: self.pending_transfers.len(),
            total_liquidity: total,
            active_bridges: active,
        }
    }
}

} // verus!
