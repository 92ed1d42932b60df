//! Cross-chain payment router: validates a payment from a supported chain,
//! asks the host to create the escrow, and remembers which source
//! transaction became which escrow so that no transaction is routed twice.
use vstd::prelude::*;

use crate::ids::{hash_eq, AccountId, Hash32};

verus! {

pub const CHAIN_STELLAR: u32 = 0;

pub const CHAIN_ETHEREUM: u32 = 2;

pub const CHAIN_SOLANA: u32 = 1;

pub const CHAIN_BSC: u32 = 4;

/// Length of the session opened for a routed payment (30 days).
pub const SESSION_LENGTH_SECS: u64 = 30 * 24 * 60 * 60;

#[derive(Copy, Clone, Debug, PartialEq, Eq, Structural)]
pub enum Rejection {
    AlreadyInitialized,
    NotInitialized,
    ChainNotSupported,
    BridgeNotVerified,
    AlreadyRouted,
    NonPositiveAmount,
    InsufficientBalance,
    RouteNotFound,
    ChainAlreadySupported,
    CannotRemoveStellar,
}

impl Rejection {
    /// The message with which the contract aborts.
    pub fn message(&self) -> (m: &'static str)
        ensures
            m == (match *self {
                Rejection::AlreadyInitialized => "Already initialized",
                Rejection::NotInitialized => "Router not initialized",
                Rejection::ChainNotSupported => "Source chain not supported",
                Rejection::BridgeNotVerified => "Bridge transaction not verified",
                Rejection::AlreadyRouted => "Transaction already routed",
                Rejection::NonPositiveAmount => "Amount must be positive",
                Rejection::InsufficientBalance => "Insufficient token balance",
                Rejection::RouteNotFound => "Route not found",
                Rejection::ChainAlreadySupported => "Chain already supported",
                Rejection::CannotRemoveStellar => "Cannot remove Stellar native chain",
            }),
    {
        match self {
            Rejection::AlreadyInitialized => "Already initialized",
            Rejection::NotInitialized => "Router not initialized",
            Rejection::ChainNotSupported => "Source chain not supported",
            Rejection::BridgeNotVerified => "Bridge transaction not verified",
            Rejection::AlreadyRouted => "Transaction already routed",
            Rejection::NonPositiveAmount => "Amount must be positive",
            Rejection::InsufficientBalance => "Insufficient token balance",
            Rejection::RouteNotFound => "Route not found",
            Rejection::ChainAlreadySupported => "Chain already supported",
            Rejection::CannotRemoveStellar => "Cannot remove Stellar native chain",
        }
    }
}

pub struct RouterConfig {
    pub admin: AccountId,
    pub escrow_contract: AccountId,
    pub bridge_receiver: AccountId,
    pub supported_chains: Vec<u32>,
}

#[derive(Copy, Clone, Debug)]
pub struct PaymentRoute {
    pub escrow_id: u64,
    pub source_chain: u32,
    pub source_tx_hash: Hash32,
    pub learner: AccountId,
    pub mentor: AccountId,
    pub amount: i128,
    pub token: AccountId,
    pub created_at: u64,
}

#[derive(Copy, Clone, Debug)]
pub struct PaymentRoutedEvent {
    pub source_chain: u32,
    pub source_tx_hash: Hash32,
    pub escrow_id: u64,
    pub learner: AccountId,
    pub mentor: AccountId,
    pub amount: i128,
    pub token: AccountId,
}

/// What the host must do to complete a validated payment: move the tokens
/// (for a direct Stellar payment) and create the escrow with these
/// arguments, then hand the escrow's id to `record_route`.
pub struct RoutePlan {
    pub source_chain: u32,
    pub source_tx_hash: Hash32,
    pub learner: AccountId,
    pub mentor: AccountId,
    pub amount: i128,
    pub token: AccountId,
    /// The escrow contract that receives the learner's tokens, for a direct
    /// Stellar payment; `None` for a bridged payment.
    pub transfer_to: Option<AccountId>,
    pub escrow_contract: AccountId,
    pub session_id: String,
    pub session_end_time: u64,
    pub total_sessions: u32,
    pub created_at: u64,
}

/// The session name handed to the escrow for the `n`-th routed payment.
pub open spec fn session_name(n: u64) -> Seq<char> {
    let k = n % 4;
    if k == 0 {
        "ROUTER_PAY_A"@
    } else if k == 1 {
        "ROUTER_PAY_B"@
    } else if k == 2 {
        "ROUTER_PAY_C"@
    } else {
        "ROUTER_PAY_D"@
    }
}

/// `chains` with every occurrence of `chain_id` taken out.
pub open spec fn without_chain_spec(chains: Seq<u32>, chain_id: u32) -> Seq<u32> {
    chains.filter(|c: u32| c != chain_id)
}

/// The route of `routes` whose source transaction is `h`, if any.
pub open spec fn route_for(routes: Seq<PaymentRoute>, h: Seq<u8>) -> Option<PaymentRoute>
    decreases routes.len(),
{
    if routes.len() == 0 {
        None
    } else if routes.last().source_tx_hash@ == h {
        Some(routes.last())
    } else {
        route_for(routes.drop_last(), h)
    }
}

/// The router's stored state.
pub struct PaymentRouter {
    config: Option<RouterConfig>,
    routes: Vec<PaymentRoute>,
    escrow_id_counter: u64,
}

impl PaymentRouter {
    pub closed spec fn config_of(&self) -> Option<RouterConfig> {
        self.config
    }

    pub closed spec fn route_list(&self) -> Seq<PaymentRoute> {
        self.routes@
    }

    pub closed spec fn route_count(&self) -> u64 {
        self.escrow_id_counter
    }

    pub open spec fn is_processed(&self, h: Seq<u8>) -> bool {
        route_for(self.route_list(), h) is Some
    }

    pub open spec fn chain_supported(&self, chain: u32) -> bool {
        &&& self.config_of() is Some
        &&& self.config_of()->Some_0.supported_chains@.contains(chain)
    }

    /// A router that has not been initialized.
    pub fn new() -> (s: Self)
        ensures
            s.config_of() is None,
            s.route_list() == Seq::<PaymentRoute>::empty(),
            s.route_count() == 0,
    {
        PaymentRouter { config: None, routes: Vec::new(), escrow_id_counter: 0 }
    }

    /// Initialize with the admin, escrow contract and bridge receiver; the
    /// supported chains start as Stellar, Ethereum, Solana and BSC.
    pub fn init(&mut self, admin: AccountId, escrow_contract: AccountId, bridge_receiver: AccountId) -> (r:
        Result<(), Rejection>)
        ensures
            old(self).config_of() is Some ==> r == Err::<(), Rejection>(Rejection::AlreadyInitialized)
                && final(self).config_of() == old(self).config_of()
                && final(self).route_count() == old(self).route_count(),
            old(self).config_of() is None ==> r == Ok::<(), Rejection>(()) && final(self).config_of()
                is Some && final(self).config_of()->Some_0.admin == admin
                && final(self).config_of()->Some_0.escrow_contract == escrow_contract
                && final(self).config_of()->Some_0.bridge_receiver == bridge_receiver
                && final(self).config_of()->Some_0.supported_chains@ == seq![
                CHAIN_STELLAR,
                CHAIN_ETHEREUM,
                CHAIN_SOLANA,
                CHAIN_BSC,
            ] && final(self).route_count() == 0,
            final(self).route_list() == old(self).route_list(),
    {
        if self.config.is_some() {
            return Err(Rejection::AlreadyInitialized);
        }
        let mut supported_chains = Vec::new();
        supported_chains.push(CHAIN_STELLAR);
        supported_chains.push(CHAIN_ETHEREUM);
        supported_chains.push(CHAIN_SOLANA);
        supported_chains.push(CHAIN_BSC);
        self.config = Some(
            RouterConfig { admin, escrow_contract, bridge_receiver, supported_chains },
        );
        self.escrow_id_counter = 0;
        Ok(())
    }

    /// The router configuration.
    pub fn get_config(&self) -> (r: Result<&RouterConfig, Rejection>)
        ensures
            match self.config_of() {
                Some(c) => r == Ok::<&RouterConfig, Rejection>(&c),
                None => r == Err::<&RouterConfig, Rejection>(Rejection::NotInitialized),
            },
    {
        match &self.config {
            Some(c) => Ok(c),
            None => Err(Rejection::NotInitialized),
        }
    }

    fn find_route(&self, source_tx_hash: &Hash32) -> (r: Option<usize>)
        ensures
            match r {
                Some(i) => i < self.routes@.len() && route_for(self.routes@, source_tx_hash@)
                    == Some(self.routes@[i as int]),
                None => route_for(self.routes@, source_tx_hash@) is None,
            },
    {
        let mut i = self.routes.len();
        assert(self.routes@.take(i as int) =~= self.routes@);
        while i > 0
            invariant
                i <= self.routes@.len(),
                route_for(self.routes@, source_tx_hash@) == route_for(
                    self.routes@.take(i as int),
                    source_tx_hash@,
                ),
            decreases i,
        {
            let j = i - 1;
            assert(self.routes@.take(i as int).drop_last() =~= self.routes@.take(j as int));
            if hash_eq(&self.routes[j].source_tx_hash, source_tx_hash) {
                return Some(j);
            }
            i = j;
        }
        None
    }

    fn contains_chain(chains: &Vec<u32>, chain: u32) -> (r: bool)
        ensures
            r == chains@.contains(chain),
    {
        let mut i: usize = 0;
        while i < chains.len()
            invariant
                i <= chains@.len(),
                forall|j: int| 0 <= j < i ==> chains@[j] != chain,
            decreases chains.len() - i,
        {
            if chains[i] == chain {
                return true;
            }
            i = i + 1;
        }
        false
    }

    /// The session name for the next routed payment.
    fn generate_session_id(&self) -> (s: String)
        ensures
            s@ == session_name(self.escrow_id_counter),
    {
        let k = self.escrow_id_counter % 4;
        if k == 0 {
            String::from_str("ROUTER_PAY_A")
        } else if k == 1 {
            String::from_str("ROUTER_PAY_B")
        } else if k == 2 {
            String::from_str("ROUTER_PAY_C")
        } else {
            String::from_str("ROUTER_PAY_D")
        }
    }

    /// Check that a payment's source chain is supported and, for a bridged
    /// chain, that the bridge receiver processed its transaction
    /// (`bridge_verified`, the receiver's answer to `is_vaa_processed`).
    pub fn verify_source_transaction(&self, source_chain: u32, bridge_verified: bool) -> (r: Result<
        (),
        Rejection,
    >)
        ensures
            r == (if self.config_of() is None {
                Err(Rejection::NotInitialized)
            } else if !self.chain_supported(source_chain) {
                Err(Rejection::ChainNotSupported)
            } else if source_chain != CHAIN_STELLAR && !bridge_verified {
                Err(Rejection::BridgeNotVerified)
            } else {
                Ok(())
            }),
    {
        let config = self.get_config()?;
        if !Self::contains_chain(&config.supported_chains, source_chain) {
            return Err(Rejection::ChainNotSupported);
        }
        if source_chain != CHAIN_STELLAR && !bridge_verified {
            return Err(Rejection::BridgeNotVerified);
        }
        Ok(())
    }

    /// Validate a payment from `source_chain` and say how to complete it.
    /// `bridge_verified` is the bridge receiver's answer on whether it
    /// processed `source_tx_hash` (read for a bridged chain only), and
    /// `learner_balance` the learner's token balance (read for a direct
    /// Stellar payment only).
    pub fn route_payment(
        &self,
        source_chain: u32,
        source_tx_hash: Hash32,
        learner: AccountId,
        mentor: AccountId,
        amount: i128,
        token: AccountId,
        bridge_verified: bool,
        learner_balance: i128,
        now: u64,
    ) -> (r: Result<RoutePlan, Rejection>)
        requires
            ({
                &&& self.chain_supported(source_chain)
                &&& (source_chain != CHAIN_STELLAR ==> bridge_verified)
                &&& !self.is_processed(source_tx_hash@)
                &&& amount > 0
                &&& (source_chain == CHAIN_STELLAR ==> learner_balance >= amount)
            }) ==> now + SESSION_LENGTH_SECS <= u64::MAX,
        ensures
            r matches Err(e) ==> e == (if self.config_of() is None {
                Rejection::NotInitialized
            } else if !self.chain_supported(source_chain) {
                Rejection::ChainNotSupported
            } else if source_chain != CHAIN_STELLAR && !bridge_verified {
                Rejection::BridgeNotVerified
            } else if self.is_processed(source_tx_hash@) {
                Rejection::AlreadyRouted
            } else if amount <= 0 {
                Rejection::NonPositiveAmount
            } else {
                Rejection::InsufficientBalance
            }),
            r is Ok <==> {
                &&& self.chain_supported(source_chain)
                &&& (source_chain != CHAIN_STELLAR ==> bridge_verified)
                &&& !self.is_processed(source_tx_hash@)
                &&& amount > 0
                &&& (source_chain == CHAIN_STELLAR ==> learner_balance >= amount)
            },
            r matches Ok(plan) ==> {
                &&& plan.source_chain == source_chain
                &&& plan.source_tx_hash == source_tx_hash
                &&& plan.learner == learner
                &&& plan.mentor == mentor
                &&& plan.amount == amount
                &&& plan.token == token
                &&& plan.escrow_contract == self.config_of()->Some_0.escrow_contract
                &&& plan.transfer_to == (if source_chain == CHAIN_STELLAR {
                    Some(self.config_of()->Some_0.escrow_contract)
                } else {
                    None
                })
                &&& plan.session_id@ == session_name(self.route_count())
                &&& plan.session_end_time == now + SESSION_LENGTH_SECS
                &&& plan.total_sessions == 1
                &&& plan.created_at == now
            },
    {
        self.verify_source_transaction(source_chain, bridge_verified)?;
        let config = self.get_config()?;
        if self.find_route(&source_tx_hash).is_some() {
            return Err(Rejection::AlreadyRouted);
        }
        if amount <= 0 {
            return Err(Rejection::NonPositiveAmount);
        }
        let transfer_to = if source_chain == CHAIN_STELLAR {
            if learner_balance < amount {
                return Err(Rejection::InsufficientBalance);
            }
            Some(config.escrow_contract)
        } else {
            None
        };
        let session_id = self.generate_session_id();
        Ok(
            RoutePlan {
                source_chain,
                source_tx_hash,
                learner,
                mentor,
                amount,
                token,
                transfer_to,
                escrow_contract: config.escrow_contract,
                session_id,
                session_end_time: now + SESSION_LENGTH_SECS,
                total_sessions: 1,
                created_at: now,
            },
        )
    }

    /// Remember that the plan's transaction became escrow `escrow_id`, and
    /// count it.  Returns the routed-payment event.
    pub fn record_route(&mut self, plan: &RoutePlan, escrow_id: u64) -> (r: Result<
        PaymentRoutedEvent,
        Rejection,
    >)
        requires
            old(self).route_count() < u64::MAX,
        ensures
            old(self).is_processed(plan.source_tx_hash@) ==> r == Err::<
                PaymentRoutedEvent,
                Rejection,
            >(Rejection::AlreadyRouted) && final(self).route_list() == old(self).route_list()
                && final(self).route_count() == old(self).route_count(),
            !old(self).is_processed(plan.source_tx_hash@) ==> {
                let route = PaymentRoute {
                    escrow_id,
                    source_chain: plan.source_chain,
                    source_tx_hash: plan.source_tx_hash,
                    learner: plan.learner,
                    mentor: plan.mentor,
                    amount: plan.amount,
                    token: plan.token,
                    created_at: plan.created_at,
                };
                &&& r == Ok::<PaymentRoutedEvent, Rejection>(
                    PaymentRoutedEvent {
                        source_chain: plan.source_chain,
                        source_tx_hash: plan.source_tx_hash,
                        escrow_id,
                        learner: plan.learner,
                        mentor: plan.mentor,
                        amount: plan.amount,
                        token: plan.token,
                    },
                )
                &&& final(self).route_list() == old(self).route_list().push(route)
                &&& final(self).route_count() == old(self).route_count() + 1
            },
            final(self).config_of() == old(self).config_of(),
    {
        if self.find_route(&plan.source_tx_hash).is_some() {
            return Err(Rejection::AlreadyRouted);
        }
        let route = PaymentRoute {
            escrow_id,
            source_chain: plan.source_chain,
            source_tx_hash: plan.source_tx_hash,
            learner: plan.learner,
            mentor: plan.mentor,
            amount: plan.amount,
            token: plan.token,
            created_at: plan.created_at,
        };
        self.routes.push(route);
        self.escrow_id_counter = self.escrow_id_counter + 1;
        Ok(
            PaymentRoutedEvent {
                source_chain: plan.source_chain,
                source_tx_hash: plan.source_tx_hash,
                escrow_id,
                learner: plan.learner,
                mentor: plan.mentor,
                amount: plan.amount,
                token: plan.token,
            },
        )
    }

    /// The escrow id routed for `source_tx_hash`.
    pub fn get_route(&self, source_tx_hash: &Hash32) -> (r: Result<u64, Rejection>)
        ensures
            match route_for(self.route_list(), source_tx_hash@) {
                Some(route) => r == Ok::<u64, Rejection>(route.escrow_id),
                None => r == Err::<u64, Rejection>(Rejection::RouteNotFound),
            },
    {
        match self.find_route(source_tx_hash) {
            Some(i) => Ok(self.routes[i].escrow_id),
            None => Err(Rejection::RouteNotFound),
        }
    }

    /// Everything recorded for `source_tx_hash`.
    pub fn get_route_details(&self, source_tx_hash: &Hash32) -> (r: Result<PaymentRoute, Rejection>)
        ensures
            match route_for(self.route_list(), source_tx_hash@) {
                Some(route) => r == Ok::<PaymentRoute, Rejection>(route),
                None => r == Err::<PaymentRoute, Rejection>(Rejection::RouteNotFound),
            },
    {
        match self.find_route(source_tx_hash) {
            Some(i) => Ok(self.routes[i]),
            None => Err(Rejection::RouteNotFound),
        }
    }

    /// Whether `source_tx_hash` has already been routed.
    pub fn is_tx_processed(&self, source_tx_hash: &Hash32) -> (r: bool)
        ensures
            r == self.is_processed(source_tx_hash@),
    {
        self.find_route(source_tx_hash).is_some()
    }

    /// The supported chains, in the order they were added.
    pub fn get_supported_chains(&self) -> (r: Result<Vec<u32>, Rejection>)
        ensures
            match self.config_of() {
                Some(c) => r is Ok && r->Ok_0@ == c.supported_chains@,
                None => r == Err::<Vec<u32>, Rejection>(Rejection::NotInitialized),
            },
    {
        let config = self.get_config()?;
        let mut out: Vec<u32> = Vec::new();
        let mut i: usize = 0;
        while i < config.supported_chains.len()
            invariant
                i <= config.supported_chains@.len(),
                out@ == config.supported_chains@.take(i as int),
            decreases config.supported_chains.len() - i,
        {
            out.push(config.supported_chains[i]);
            i = i + 1;
            assert(out@ =~= config.supported_chains@.take(i as int));
        }
        assert(config.supported_chains@.take(i as int) =~= config.supported_chains@);
        Ok(out)
    }

    /// Add a supported chain (admin only; the host checks the admin's
    /// authorization).
    pub fn add_supported_chain(&mut self, chain_id: u32) -> (r: Result<(), Rejection>)
        ensures
            r == (if old(self).config_of() is None {
                Err(Rejection::NotInitialized)
            } else if old(self).chain_supported(chain_id) {
                Err(Rejection::ChainAlreadySupported)
            } else {
                Ok(())
            }),
            r is Err ==> final(self).config_of() == old(self).config_of(),
            r is Ok ==> final(self).config_of() is Some
                && final(self).config_of()->Some_0.supported_chains@ == old(self).config_of()->Some_0.supported_chains@.push(chain_id) && final(self).config_of()->Some_0.admin == old(self).config_of()->Some_0.admin && final(self).config_of()->Some_0.escrow_contract == old(self).config_of()->Some_0.escrow_contract
                && final(self).config_of()->Some_0.bridge_receiver == old(self).config_of()->Some_0.bridge_receiver,
            final(self).route_list() == old(self).route_list(),
            final(self).route_count() == old(self).route_count(),
    {
        match &mut self.config {
            None => Err(Rejection::NotInitialized),
            Some(config) => {
                if Self::contains_chain(&config.supported_chains, chain_id) {
                    return Err(Rejection::ChainAlreadySupported);
                }
                config.supported_chains.push(chain_id);
                Ok(())
            },
        }
    }

    fn without_chain(chains: &Vec<u32>, chain_id: u32) -> (out: Vec<u32>)
        ensures
            out@ == without_chain_spec(chains@, chain_id),
    {
        let mut out: Vec<u32> = Vec::new();
        let mut i: usize = 0;
        assert(chains@.take(0) =~= Seq::<u32>::empty());
        while i < chains.len()
            invariant
                i <= chains@.len(),
                out@ == without_chain_spec(chains@.take(i as int), chain_id),
            decreases chains.len() - i,
        {
            proof {
                reveal_with_fuel(Seq::<_>::filter, 1);
                assert(chains@.take(i + 1).drop_last() =~= chains@.take(i as int));
                assert(chains@.take(i + 1).last() == chains@[i as int]);
            }
            if chains[i] != chain_id {
                out.push(chains[i]);
            }
            i = i + 1;
        }
        assert(chains@.take(i as int) =~= chains@);
        out
    }

    /// Remove a supported chain (admin only); Stellar cannot be removed.
    pub fn remove_supported_chain(&mut self, chain_id: u32) -> (r: Result<(), Rejection>)
        ensures
            r == (if old(self).config_of() is None {
                Err(Rejection::NotInitialized)
            } else if chain_id == CHAIN_STELLAR {
                Err(Rejection::CannotRemoveStellar)
            } else {
                Ok(())
            }),
            r is Err ==> final(self).config_of() == old(self).config_of(),
            r is Ok ==> final(self).config_of() is Some
                && final(self).config_of()->Some_0.supported_chains@ == without_chain_spec(
                old(self).config_of()->Some_0.supported_chains@,
                chain_id,
            ) && final(self).config_of()->Some_0.admin == old(self).config_of()->Some_0.admin && final(self).config_of()->Some_0.escrow_contract == old(self).config_of()->Some_0.escrow_contract
                && final(self).config_of()->Some_0.bridge_receiver == old(self).config_of()->Some_0.bridge_receiver,
            final(self).route_list() == old(self).route_list(),
            final(self).route_count() == old(self).route_count(),
    {
        match &mut self.config {
            None => Err(Rejection::NotInitialized),
            Some(config) => {
                if chain_id == CHAIN_STELLAR {
                    return Err(Rejection::CannotRemoveStellar);
                }
                let kept = Self::without_chain(&config.supported_chains, chain_id);
                config.supported_chains = kept;
                Ok(())
            },
        }
    }

    /// Point the router at a new escrow contract (admin only).
    pub fn set_escrow_contract(&mut self, escrow_contract: AccountId) -> (r: Result<(), Rejection>)
        ensures
            r == (if old(self).config_of() is None {
                Err(Rejection::NotInitialized)
            } else {
                Ok(())
            }),
            r is Err ==> final(self).config_of() == old(self).config_of(),
            r is Ok ==> final(self).config_of() is Some
                && final(self).config_of()->Some_0.escrow_contract == escrow_contract && final(self).config_of()->Some_0.admin == old(self).config_of()->Some_0.admin && final(self).config_of()->Some_0.bridge_receiver == old(self).config_of()->Some_0.bridge_receiver
                && final(self).config_of()->Some_0.supported_chains@ == old(self).config_of()->Some_0.supported_chains@,
            final(self).route_list() == old(self).route_list(),
            final(self).route_count() == old(self).route_count(),
    {
        match &mut self.config {
            None => Err(Rejection::NotInitialized),
            Some(config) => {
                config.escrow_contract = escrow_contract;
                Ok(())
            },
        }
    }

    /// Point the router at a new bridge receiver (admin only).
    pub fn set_bridge_receiver(&mut self, bridge_receiver: AccountId) -> (r: Result<(), Rejection>)
        ensures
            r == (if old(self).config_of() is None {
                Err(Rejection::NotInitialized)
            } else {
                Ok(())
            }),
            r is Err ==> final(self).config_of() == old(self).config_of(),
            r is Ok ==> final(self).config_of() is Some
                && final(self).config_of()->Some_0.bridge_receiver == bridge_receiver && final(self).config_of()->Some_0.admin == old(self).config_of()->Some_0.admin && final(self).config_of()->Some_0.escrow_contract == old(self).config_of()->Some_0.escrow_contract
                && final(self).config_of()->Some_0.supported_chains@ == old(self).config_of()->Some_0.supported_chains@,
            final(self).route_list() == old(self).route_list(),
            final(self).route_count() == old(self).route_count(),
    {
        match &mut self.config {
            None => Err(Rejection::NotInitialized),
            Some(config) => {
                config.bridge_receiver = bridge_receiver;
                Ok(())
            },
        }
    }

    /// Total number of routed payments.
    pub fn get_route_count(&self) -> (r: u64)
        ensures
            r == self.route_count(),
    {
        self.escrow_id_counter
    }
}

/// Replay protection: once a route is recorded its source transaction
/// counts as processed, and looking it up gives the recorded route; a
/// processed transaction is refused by `route_payment` and `record_route`.
pub proof fn lemma_recorded_route_is_processed(routes: Seq<PaymentRoute>, route: PaymentRoute)
    ensures
        route_for(routes.push(route), route.source_tx_hash@) == Some(route),
        forall|h: Seq<u8>|
            h != route.source_tx_hash@ ==> #[trigger] route_for(routes.push(route), h) == route_for(
                routes,
                h,
            ),
{
    assert(routes.push(route).drop_last() =~= routes);
}

} // verus!
