//! Governance: the administrator, the platform account, the fee, the minting
//! threshold and the pause flag.
//!
//! The configuration is created once. The administrator named at that moment
//! stays the administrator: every later change asks for a call that the
//! administrator authorized and that names the stored administrator as its
//! actor, because the authorization guard proves an actor, not a role.

use vstd::prelude::*;
use crate::auth::Authorization;
use crate::error::Error;
use crate::identity::Address;

verus! {

/// The platform fee, in basis points, of a configuration created without one.
pub const DEFAULT_PLATFORM_FEE_BPS: u32 = 250;

/// The highest platform fee, in basis points.
pub const MAX_PLATFORM_FEE_BPS: u32 = 1000;

/// The minting threshold of a configuration created without one.
pub const DEFAULT_TIP_THRESHOLD: i128 = 100_000_000;

/// The lowest minting threshold.
pub const MINIMUM_TIP_THRESHOLD: i128 = 0;

/// The configuration of one deployment.
#[derive(Debug)]
pub struct GovernanceConfig {
    pub admin: Address,
    pub platform_address: Address,
    pub platform_fee_bps: u32,
    pub paused: bool,
    pub tip_threshold: i128,
}

/// The governance state: no configuration yet, or the one that was created.
#[derive(Debug)]
pub struct Governance {
    config: Option<GovernanceConfig>,
}

/// The fee that a configuration takes from the fee asked for at its creation.
pub open spec fn fee_or_default(fee_bps: Option<u32>) -> u32 {
    match fee_bps {
        Some(fee) => fee,
        None => DEFAULT_PLATFORM_FEE_BPS,
    }
}

/// The threshold that a configuration takes from the one asked for at its
/// creation.
pub open spec fn threshold_or_default(tip_threshold: Option<i128>) -> i128 {
    match tip_threshold {
        Some(threshold) => threshold,
        None => DEFAULT_TIP_THRESHOLD,
    }
}

impl Governance {
    /// The configuration, once created.
    pub closed spec fn config(&self) -> Option<GovernanceConfig> {
        self.config
    }

    /// The stored fee is within the highest fee, and the stored threshold is
    /// not under the lowest threshold.
    pub open spec fn wf(&self) -> bool {
        self.config() matches Some(config) ==> config.platform_fee_bps <= MAX_PLATFORM_FEE_BPS
            && config.tip_threshold >= MINIMUM_TIP_THRESHOLD
    }

    /// Whether the configuration was created.
    pub open spec fn initialized(&self) -> bool {
        self.config() is Some
    }

    /// Whether `actor` is the stored administrator.
    pub open spec fn admin_is(&self, actor: Seq<char>) -> bool {
        self.config() matches Some(config) && config.admin@ == actor
    }

    /// The platform fee in basis points; the default fee before the
    /// configuration is created.
    pub open spec fn fee_bps(&self) -> u32 {
        match self.config() {
            Some(config) => config.platform_fee_bps,
            None => DEFAULT_PLATFORM_FEE_BPS,
        }
    }

    /// The minting threshold; the default threshold before the configuration
    /// is created.
    pub open spec fn tip_threshold(&self) -> i128 {
        match self.config() {
            Some(config) => config.tip_threshold,
            None => DEFAULT_TIP_THRESHOLD,
        }
    }

    /// Whether the deployment is paused; it is not before the configuration is
    /// created.
    pub open spec fn paused(&self) -> bool {
        self.config() matches Some(config) && config.paused
    }

    /// What `initialize` answers.
    pub open spec fn initialize_outcome(
        &self,
        approvers: Set<Seq<char>>,
        admin: Seq<char>,
        fee_bps: Option<u32>,
        tip_threshold: Option<i128>,
    ) -> Result<(), Error> {
        if self.initialized() {
            Err(Error::AlreadyInitialized)
        } else if !approvers.contains(admin) {
            Err(Error::Unauthorized)
        } else if fee_or_default(fee_bps) > MAX_PLATFORM_FEE_BPS {
            Err(Error::FeeTooHigh)
        } else if threshold_or_default(tip_threshold) < MINIMUM_TIP_THRESHOLD {
            Err(Error::BelowMinimum)
        } else {
            Ok(())
        }
    }

    /// What `set_threshold` answers.
    pub open spec fn set_threshold_outcome(
        &self,
        approvers: Set<Seq<char>>,
        actor: Seq<char>,
        new_threshold: i128,
    ) -> Result<(), Error> {
        if self.admin_outcome(approvers, actor) is Err {
            Err(Error::Unauthorized)
        } else if new_threshold < MINIMUM_TIP_THRESHOLD {
            Err(Error::BelowMinimum)
        } else {
            Ok(())
        }
    }

    /// What the administrator check answers for a call that names `actor`.
    pub open spec fn admin_outcome(&self, approvers: Set<Seq<char>>, actor: Seq<char>) -> Result<
        (),
        Error,
    > {
        if approvers.contains(actor) && self.admin_is(actor) {
            Ok(())
        } else {
            Err(Error::Unauthorized)
        }
    }

    /// What `set_fee` answers.
    pub open spec fn set_fee_outcome(
        &self,
        approvers: Set<Seq<char>>,
        actor: Seq<char>,
        new_fee_bps: u32,
    ) -> Result<(), Error> {
        if self.admin_outcome(approvers, actor) is Err {
            Err(Error::Unauthorized)
        } else if new_fee_bps > MAX_PLATFORM_FEE_BPS {
            Err(Error::FeeTooHigh)
        } else {
            Ok(())
        }
    }

    /// A deployment without configuration.
    pub fn new() -> (governance: Governance)
        ensures
            governance.config() is None,
            governance.wf(),
    {
        Governance { config: None }
    }

    /// The governance state that holds the stored configuration `config`, or
    /// none where there is nothing stored. A stored fee above the highest fee
    /// and a stored threshold under the lowest threshold are refused.
    pub fn restore(config: Option<GovernanceConfig>) -> (governance: Option<Governance>)
        ensures
            match governance {
                Some(restored) => restored.wf() && restored.config() == config,
                None => config matches Some(stored) && (stored.platform_fee_bps
                    > MAX_PLATFORM_FEE_BPS || stored.tip_threshold < MINIMUM_TIP_THRESHOLD),
            },
    {
        let acceptable = match &config {
            Some(stored) => stored.platform_fee_bps <= MAX_PLATFORM_FEE_BPS && stored.tip_threshold
                >= MINIMUM_TIP_THRESHOLD,
            None => true,
        };
        if acceptable {
            Some(Governance { config })
        } else {
            None
        }
    }

    /// Creates the configuration, not paused, with `admin` as administrator.
    ///
    /// Fails with `AlreadyInitialized` when there is one already, with
    /// `Unauthorized` when `admin` did not authorize the call, with
    /// `FeeTooHigh` when the fee is above the highest fee, and with
    /// `BelowMinimum` when the threshold is negative.
    pub fn initialize(
        &mut self,
        auth: &Authorization,
        admin: Address,
        platform_address: Address,
        fee_bps: Option<u32>,
        tip_threshold: Option<i128>,
    ) -> (outcome: Result<(), Error>)
        requires
            old(self).wf(),
        ensures
            final(self).wf(),
            outcome == old(self).initialize_outcome(auth@, admin@, fee_bps, tip_threshold),
            outcome is Ok ==> final(self).config() == Some(
                (GovernanceConfig {
                    admin,
                    platform_address,
                    platform_fee_bps: fee_or_default(fee_bps),
                    paused: false,
                    tip_threshold: threshold_or_default(tip_threshold),
                }),
            ),
            outcome is Err ==> *final(self) == *old(self),
    {
        if self.config.is_some() {
            return Err(Error::AlreadyInitialized);
        }
        if !auth.has_authorized(&admin) {
            return Err(Error::Unauthorized);
        }
        let platform_fee_bps = match fee_bps {
            Some(fee) => fee,
            None => DEFAULT_PLATFORM_FEE_BPS,
        };
        if platform_fee_bps > MAX_PLATFORM_FEE_BPS {
            return Err(Error::FeeTooHigh);
        }
        let tip_threshold = match tip_threshold {
            Some(threshold) => threshold,
            None => DEFAULT_TIP_THRESHOLD,
        };
        if tip_threshold < MINIMUM_TIP_THRESHOLD {
            return Err(Error::BelowMinimum);
        }
        self.config = Some(
            GovernanceConfig { admin, platform_address, platform_fee_bps, paused: false, tip_threshold },
        );
        Ok(())
    }

    /// Passes when `actor` authorized the call and is the stored
    /// administrator, and fails with `Unauthorized` when not.
    pub fn require_admin(&self, auth: &Authorization, actor: &Address) -> (outcome: Result<
        (),
        Error,
    >)
        ensures
            outcome == self.admin_outcome(auth@, actor@),
    {
        if !auth.has_authorized(actor) {
            return Err(Error::Unauthorized);
        }
        match &self.config {
            Some(config) => {
                if config.admin == *actor {
                    Ok(())
                } else {
                    Err(Error::Unauthorized)
                }
            },
            None => Err(Error::Unauthorized),
        }
    }

    /// Sets the platform fee.
    ///
    /// Fails with `Unauthorized` unless the administrator makes the call, and
    /// with `FeeTooHigh` when the fee is above the highest fee.
    pub fn set_fee(&mut self, auth: &Authorization, admin: &Address, new_fee_bps: u32) -> (outcome:
        Result<(), Error>)
        requires
            old(self).wf(),
        ensures
            final(self).wf(),
            outcome == old(self).set_fee_outcome(auth@, admin@, new_fee_bps),
            outcome is Ok ==> final(self).config() == Some(
                (GovernanceConfig {
                    platform_fee_bps: new_fee_bps,
                    ..old(self).config()->Some_0
                }),
            ),
            outcome is Err ==> *final(self) == *old(self),
    {
        match self.require_admin(auth, admin) {
            Ok(()) => {},
            Err(error) => {
                return Err(error);
            },
        }
        if new_fee_bps > MAX_PLATFORM_FEE_BPS {
            return Err(Error::FeeTooHigh);
        }
        match self.config.take() {
            Some(config) => {
                self.config = Some(GovernanceConfig { platform_fee_bps: new_fee_bps, ..config });
            },
            None => {},
        }
        Ok(())
    }

    /// Sets the minting threshold.
    ///
    /// Fails with `Unauthorized` unless the administrator makes the call, and
    /// with `BelowMinimum` when the threshold is negative.
    pub fn set_threshold(&mut self, auth: &Authorization, admin: &Address, new_threshold: i128) -> (outcome:
        Result<(), Error>)
        requires
            old(self).wf(),
        ensures
            final(self).wf(),
            final(self).tip_threshold() >= MINIMUM_TIP_THRESHOLD,
            outcome == old(self).set_threshold_outcome(auth@, admin@, new_threshold),
            outcome is Ok ==> final(self).config() == Some(
                (GovernanceConfig { tip_threshold: new_threshold, ..old(self).config()->Some_0 }),
            ),
            outcome is Err ==> *final(self) == *old(self),
    {
        match self.require_admin(auth, admin) {
            Ok(()) => {},
            Err(error) => {
                return Err(error);
            },
        }
        if new_threshold < MINIMUM_TIP_THRESHOLD {
            return Err(Error::BelowMinimum);
        }
        match self.config.take() {
            Some(config) => {
                self.config = Some(GovernanceConfig { tip_threshold: new_threshold, ..config });
            },
            None => {},
        }
        Ok(())
    }

    /// Pauses the deployment.
    ///
    /// Fails with `Unauthorized` unless the administrator makes the call.
    pub fn pause(&mut self, auth: &Authorization, admin: &Address) -> (outcome: Result<(), Error>)
        requires
            old(self).wf(),
        ensures
            final(self).wf(),
            outcome == old(self).admin_outcome(auth@, admin@),
            outcome is Ok ==> final(self).config() == Some(
                (GovernanceConfig { paused: true, ..old(self).config()->Some_0 }),
            ),
            outcome is Err ==> *final(self) == *old(self),
    {
        self.set_paused(auth, admin, true)
    }

    /// Ends the pause.
    ///
    /// Fails with `Unauthorized` unless the administrator makes the call.
    pub fn unpause(&mut self, auth: &Authorization, admin: &Address) -> (outcome: Result<(), Error>)
        requires
            old(self).wf(),
        ensures
            final(self).wf(),
            outcome == old(self).admin_outcome(auth@, admin@),
            outcome is Ok ==> final(self).config() == Some(
                (GovernanceConfig { paused: false, ..old(self).config()->Some_0 }),
            ),
            outcome is Err ==> *final(self) == *old(self),
    {
        self.set_paused(auth, admin, false)
    }

    fn set_paused(&mut self, auth: &Authorization, admin: &Address, paused: bool) -> (outcome:
        Result<(), Error>)
        requires
            old(self).wf(),
        ensures
            final(self).wf(),
            outcome == old(self).admin_outcome(auth@, admin@),
            outcome is Ok ==> final(self).config() == Some(
                (GovernanceConfig { paused, ..old(self).config()->Some_0 }),
            ),
            outcome is Err ==> *final(self) == *old(self),
    {
        match self.require_admin(auth, admin) {
            Ok(()) => {},
            Err(error) => {
                return Err(error);
            },
        }
        match self.config.take() {
            Some(config) => {
                self.config = Some(GovernanceConfig { paused, ..config });
            },
            None => {},
        }
        Ok(())
    }

    /// Whether the deployment is paused.
    pub fn is_paused(&self) -> (paused: bool)
        ensures
            paused == self.paused(),
    {
        match &self.config {
            Some(config) => config.paused,
            None => false,
        }
    }

    /// Whether the configuration was created.
    pub fn is_initialized(&self) -> (initialized: bool)
        ensures
            initialized == self.initialized(),
    {
        self.config.is_some()
    }

    /// The platform fee in basis points.
    pub fn platform_fee_bps(&self) -> (fee: u32)
        ensures
            fee == self.fee_bps(),
    {
        match &self.config {
            Some(config) => config.platform_fee_bps,
            None => DEFAULT_PLATFORM_FEE_BPS,
        }
    }

    /// The minting threshold, which is never negative.
    pub fn threshold(&self) -> (threshold: i128)
        requires
            self.wf(),
        ensures
            threshold == self.tip_threshold(),
            threshold >= MINIMUM_TIP_THRESHOLD,
    {
        match &self.config {
            Some(config) => config.tip_threshold,
            None => DEFAULT_TIP_THRESHOLD,
        }
    }

    /// The configuration, once created.
    pub fn configuration(&self) -> (config: Option<&GovernanceConfig>)
        ensures
            match config {
                Some(stored) => self.config() == Some(*stored),
                None => self.config() is None,
            },
    {
        self.config.as_ref()
    }
}

} // verus!
