//! Errors: the runtime's program errors, the registry's own error enums and
//! their numbering as custom program errors.

use vstd::prelude::*;

verus! {

/// The runtime's program errors (variants as the Solana runtime numbers them).
#[derive(Debug, Clone, Copy, PartialEq, Eq, Structural)]
pub enum ProgramError {
    Custom(u32),
    InvalidArgument,
    InvalidInstructionData,
    InvalidAccountData,
    AccountDataTooSmall,
    InsufficientFunds,
    IncorrectProgramId,
    MissingRequiredSignature,
    AccountAlreadyInitialized,
    UninitializedAccount,
    NotEnoughAccountKeys,
    AccountBorrowFailed,
    MaxSeedLengthExceeded,
    InvalidSeeds,
    BorshIoError,
    AccountNotRentExempt,
    UnsupportedSysvar,
    IllegalOwner,
    MaxAccountsDataAllocationsExceeded,
    InvalidRealloc,
    MaxInstructionTraceLengthExceeded,
    BuiltinProgramsMustConsumeComputeUnits,
    InvalidAccountOwner,
    ArithmeticOverflow,
    Immutable,
    IncorrectAuthority,
}

/// Result of the registry's operations.
pub type Result<T> = core::result::Result<T, ProgramError>;

/// An error enum whose variants are numbered from a fixed offset.
pub trait ErrorIndexOffset {
    /// The number of the first variant.
    fn offset() -> (r: u32);
}

/// Access-control errors.
#[derive(Debug, Clone, Copy, PartialEq, Eq, Structural)]
pub enum AuthError {
    /// The sender doesn't have access permissions.
    Unauthorized,
    /// No new owner was specified.
    NoNewOwner,
    /// The sender can't be the new owner.
    UselessRotation,
    /// It's too late to accept the owner role.
    TransferOwnerDeadline,
}

impl AuthError {
    /// Position of the variant in the declaration.
    pub open spec fn ordinal(self) -> u32 {
        match self {
            AuthError::Unauthorized => 0,
            AuthError::NoNewOwner => 1,
            AuthError::UselessRotation => 2,
            AuthError::TransferOwnerDeadline => 3,
        }
    }

    pub fn to_u32(self) -> (r: u32)
        ensures
            r == self.ordinal(),
    {
        match self {
            AuthError::Unauthorized => 0,
            AuthError::NoNewOwner => 1,
            AuthError::UselessRotation => 2,
            AuthError::TransferOwnerDeadline => 3,
        }
    }

    /// The human-readable message of the error.
    pub fn message(&self) -> (r: &'static str)
        ensures
            r@ == self.spec_message(),
    {
        match self {
            AuthError::Unauthorized => "Sender doesn't have access permissions!",
            AuthError::NoNewOwner => "New owner wasn't specified!",
            AuthError::UselessRotation => "Sender can't be the new owner!",
            AuthError::TransferOwnerDeadline => "It's too late to accept owner role!",
        }
    }

    /// The message's text.
    pub open spec fn spec_message(&self) -> Seq<char> {
        match self {
            AuthError::Unauthorized => "Sender doesn't have access permissions!"@,
            AuthError::NoNewOwner => "New owner wasn't specified!"@,
            AuthError::UselessRotation => "Sender can't be the new owner!"@,
            AuthError::TransferOwnerDeadline => "It's too late to accept owner role!"@,
        }
    }

    /// Every variant, in declaration order.
    pub fn all() -> (r: Vec<AuthError>)
        ensures
            r@.len() == 4,
            forall|i: int| 0 <= i < 4 ==> (#[trigger] r@[i]).ordinal() == i,
    {
        vec![
            AuthError::Unauthorized,
            AuthError::NoNewOwner,
            AuthError::UselessRotation,
            AuthError::TransferOwnerDeadline,
        ]
    }
}

/// The first number of `AuthError` variants.
pub const AUTH_ERROR_OFFSET: u32 = 1_000;

impl ErrorIndexOffset for AuthError {
    fn offset() -> (r: u32)
        ensures
            r == AUTH_ERROR_OFFSET,
    {
        AUTH_ERROR_OFFSET
    }
}

/// Registry-specific errors.
#[derive(Debug, Clone, Copy, PartialEq, Eq, Structural)]
pub enum CustomError {
    NoParameters,
    WrongAssetType,
    ZeroAmount,
    ExceededAvailableAssetAmount,
    ContractIsPaused,
    MaxDataSizeIsOutOfRange,
    MaxDataSizeIsExceeded,
    WrongUserId,
    ActivateAccountTwice,
    AccountIsNotActivated,
    OpenAccountTwice,
    AccountIsNotOpened,
    BadNonce,
}

impl CustomError {
    /// Position of the variant in the declaration.
    pub open spec fn ordinal(self) -> u32 {
        match self {
            CustomError::NoParameters => 0,
            CustomError::WrongAssetType => 1,
            CustomError::ZeroAmount => 2,
            CustomError::ExceededAvailableAssetAmount => 3,
            CustomError::ContractIsPaused => 4,
            CustomError::MaxDataSizeIsOutOfRange => 5,
            CustomError::MaxDataSizeIsExceeded => 6,
            CustomError::WrongUserId => 7,
            CustomError::ActivateAccountTwice => 8,
            CustomError::AccountIsNotActivated => 9,
            CustomError::OpenAccountTwice => 10,
            CustomError::AccountIsNotOpened => 11,
            CustomError::BadNonce => 12,
        }
    }

    pub fn to_u32(self) -> (r: u32)
        ensures
            r == self.ordinal(),
    {
        match self {
            CustomError::NoParameters => 0,
            CustomError::WrongAssetType => 1,
            CustomError::ZeroAmount => 2,
            CustomError::ExceededAvailableAssetAmount => 3,
            CustomError::ContractIsPaused => 4,
            CustomError::MaxDataSizeIsOutOfRange => 5,
            CustomError::MaxDataSizeIsExceeded => 6,
            CustomError::WrongUserId => 7,
            CustomError::ActivateAccountTwice => 8,
            CustomError::AccountIsNotActivated => 9,
            CustomError::OpenAccountTwice => 10,
            CustomError::AccountIsNotOpened => 11,
            CustomError::BadNonce => 12,
        }
    }

    /// The message's text.
    pub open spec fn spec_message(&self) -> Seq<char> {
        match self {
            CustomError::NoParameters => "Parameters are not provided!"@,
            CustomError::WrongAssetType => "Wrong asset type!"@,
            CustomError::ZeroAmount => "Zero amount to send!"@,
            CustomError::ExceededAvailableAssetAmount => "Exceeded available asset amount!"@,
            CustomError::ContractIsPaused => "The contract is temporary paused!"@,
            CustomError::MaxDataSizeIsOutOfRange => "Max data size is out of range!"@,
            CustomError::MaxDataSizeIsExceeded => "Max data size is exceeded!"@,
            CustomError::WrongUserId => "Wrong user ID!"@,
            CustomError::ActivateAccountTwice => "Account can't be activated twice!"@,
            CustomError::AccountIsNotActivated => "Account isn't activated!"@,
            CustomError::OpenAccountTwice => "Account can't be opened twice!"@,
            CustomError::AccountIsNotOpened => "Account isn't opened!"@,
            CustomError::BadNonce => "Nonce must be unique!"@,
        }
    }

    /// The human-readable message of the error.
    pub fn message(&self) -> (r: &'static str)
        ensures
            r@ == self.spec_message(),
    {
        match self {
            CustomError::NoParameters => "Parameters are not provided!",
            CustomError::WrongAssetType => "Wrong asset type!",
            CustomError::ZeroAmount => "Zero amount to send!",
            CustomError::ExceededAvailableAssetAmount => "Exceeded available asset amount!",
            CustomError::ContractIsPaused => "The contract is temporary paused!",
            CustomError::MaxDataSizeIsOutOfRange => "Max data size is out of range!",
            CustomError::MaxDataSizeIsExceeded => "Max data size is exceeded!",
            CustomError::WrongUserId => "Wrong user ID!",
            CustomError::ActivateAccountTwice => "Account can't be activated twice!",
            CustomError::AccountIsNotActivated => "Account isn't activated!",
            CustomError::OpenAccountTwice => "Account can't be opened twice!",
            CustomError::AccountIsNotOpened => "Account isn't opened!",
            CustomError::BadNonce => "Nonce must be unique!",
        }
    }

    /// Every variant, in declaration order.
    pub fn all() -> (r: Vec<CustomError>)
        ensures
            r@.len() == 13,
            forall|i: int| 0 <= i < 13 ==> (#[trigger] r@[i]).ordinal() == i,
    {
        vec![
            CustomError::NoParameters,
            CustomError::WrongAssetType,
            CustomError::ZeroAmount,
            CustomError::ExceededAvailableAssetAmount,
            CustomError::ContractIsPaused,
            CustomError::MaxDataSizeIsOutOfRange,
            CustomError::MaxDataSizeIsExceeded,
            CustomError::WrongUserId,
            CustomError::ActivateAccountTwice,
            CustomError::AccountIsNotActivated,
            CustomError::OpenAccountTwice,
            CustomError::AccountIsNotOpened,
            CustomError::BadNonce,
        ]
    }
}

/// The first number of `CustomError` variants.
pub const CUSTOM_ERROR_OFFSET: u32 = 0;

impl ErrorIndexOffset for CustomError {
    fn offset() -> (r: u32)
        ensures
            r == CUSTOM_ERROR_OFFSET,
    {
        CUSTOM_ERROR_OFFSET
    }
}

/// Any error of the registry, numbered globally.
#[derive(Debug, Clone, Copy, PartialEq, Eq, Structural)]
pub enum AnyError {
    Custom(CustomError),
    Auth(AuthError),
}

impl AnyError {
    /// The global number: the enum's offset plus the variant's position.
    pub open spec fn spec_index(self) -> u32 {
        match self {
            AnyError::Custom(e) => (CUSTOM_ERROR_OFFSET + e.ordinal()) as u32,
            AnyError::Auth(e) => (AUTH_ERROR_OFFSET + e.ordinal()) as u32,
        }
    }

    /// The global number of the error.
    pub fn index(self) -> (r: u32)
        ensures
            r == self.spec_index(),
    {
        match self {
            AnyError::Custom(e) => CUSTOM_ERROR_OFFSET + e.to_u32(),
            AnyError::Auth(e) => AUTH_ERROR_OFFSET + e.to_u32(),
        }
    }

    /// Every error with its global number: the custom errors, then the
    /// access-control errors, each in declaration order.
    pub fn all_with_indices() -> (r: Vec<(u32, AnyError)>)
        ensures
            r@.len() == 17,
            forall|i: int| 0 <= i < 13 ==> (#[trigger] r@[i]).1 is Custom && r@[i].1->Custom_0.ordinal() == i,
            forall|i: int| 13 <= i < 17 ==> (#[trigger] r@[i]).1 is Auth && r@[i].1->Auth_0.ordinal() == i - 13,
            forall|i: int| 0 <= i < 17 ==> (#[trigger] r@[i]).0 == r@[i].1.spec_index(),
    {
        let mut out: Vec<(u32, AnyError)> = Vec::new();
        let custom = CustomError::all();
        let auth = AuthError::all();
        let mut i: usize = 0;
        while i < custom.len()
            invariant
                custom@.len() == 13,
                forall|k: int| 0 <= k < 13 ==> (#[trigger] custom@[k]).ordinal() == k,
                i <= 13,
                out@.len() == i,
                forall|k: int| 0 <= k < i ==> (#[trigger] out@[k]).1 == AnyError::Custom(custom@[k]),
                forall|k: int| 0 <= k < i ==> (#[trigger] out@[k]).0 == out@[k].1.spec_index(),
            decreases 13 - i,
        {
            let e = AnyError::Custom(custom[i]);
            out.push((e.index(), e));
            i = i + 1;
        }
        let mut j: usize = 0;
        while j < auth.len()
            invariant
                auth@.len() == 4,
                forall|k: int| 0 <= k < 4 ==> (#[trigger] auth@[k]).ordinal() == k,
                custom@.len() == 13,
                forall|k: int| 0 <= k < 13 ==> (#[trigger] custom@[k]).ordinal() == k,
                j <= 4,
                out@.len() == 13 + j,
                forall|k: int| 0 <= k < 13 ==> (#[trigger] out@[k]).1 == AnyError::Custom(custom@[k]),
                forall|k: int| 13 <= k < 13 + j ==> (#[trigger] out@[k]).1 == AnyError::Auth(auth@[k - 13]),
                forall|k: int| 0 <= k < 13 + j ==> (#[trigger] out@[k]).0 == out@[k].1.spec_index(),
            decreases 4 - j,
        {
            let e = AnyError::Auth(auth[j]);
            out.push((e.index(), e));
            j = j + 1;
        }
        out
    }

    /// Every error, in the order of `all_with_indices`.
    pub fn all() -> (r: Vec<AnyError>)
        ensures
            r@.len() == 17,
            forall|i: int| 0 <= i < 13 ==> (#[trigger] r@[i]) is Custom && r@[i]->Custom_0.ordinal() == i,
            forall|i: int| 13 <= i < 17 ==> (#[trigger] r@[i]) is Auth && r@[i]->Auth_0.ordinal() == i - 13,
    {
        let pairs = Self::all_with_indices();
        let mut out: Vec<AnyError> = Vec::new();
        let mut i: usize = 0;
        while i < pairs.len()
            invariant
                pairs@.len() == 17,
                i <= 17,
                out@.len() == i,
                forall|k: int| 0 <= k < i ==> (#[trigger] out@[k]) == pairs@[k].1,
            decreases 17 - i,
        {
            out.push(pairs[i].1);
            i = i + 1;
        }
        out
    }

    /// Every global error number, in the order of `all_with_indices`.
    pub fn all_indices() -> (r: Vec<u32>)
        ensures
            r@.len() == 17,
            forall|i: int| 0 <= i < 13 ==> #[trigger] r@[i] == i,
            forall|i: int| 13 <= i < 17 ==> #[trigger] r@[i] == AUTH_ERROR_OFFSET + i - 13,
    {
        let pairs = Self::all_with_indices();
        let mut out: Vec<u32> = Vec::new();
        let mut i: usize = 0;
        while i < pairs.len()
            invariant
                pairs@.len() == 17,
                forall|k: int| 0 <= k < 13 ==> (#[trigger] pairs@[k]).1 is Custom && pairs@[k].1->Custom_0.ordinal() == k,
                forall|k: int| 13 <= k < 17 ==> (#[trigger] pairs@[k]).1 is Auth && pairs@[k].1->Auth_0.ordinal() == k - 13,
                forall|k: int| 0 <= k < 17 ==> (#[trigger] pairs@[k]).0 == pairs@[k].1.spec_index(),
                i <= 17,
                out@.len() == i,
                forall|k: int| 0 <= k < i ==> (#[trigger] out@[k]) == pairs@[k].0,
            decreases 17 - i,
        {
            out.push(pairs[i].0);
            i = i + 1;
        }
        out
    }
}

impl From<CustomError> for AnyError {
    fn from(e: CustomError) -> (r: Self) {
        AnyError::Custom(e)
    }
}

impl vstd::std_specs::convert::FromSpecImpl<CustomError> for AnyError {
    open spec fn obeys_from_spec() -> bool {
        true
    }

    open spec fn from_spec(e: CustomError) -> Self {
        AnyError::Custom(e)
    }
}

impl From<AuthError> for AnyError {
    fn from(e: AuthError) -> (r: Self) {
        AnyError::Auth(e)
    }
}

impl vstd::std_specs::convert::FromSpecImpl<AuthError> for AnyError {
    open spec fn obeys_from_spec() -> bool {
        true
    }

    open spec fn from_spec(e: AuthError) -> Self {
        AnyError::Auth(e)
    }
}

impl From<AnyError> for ProgramError {
    fn from(e: AnyError) -> (r: Self) {
        ProgramError::Custom(e.index())
    }
}

impl vstd::std_specs::convert::FromSpecImpl<AnyError> for ProgramError {
    open spec fn obeys_from_spec() -> bool {
        true
    }

    open spec fn from_spec(e: AnyError) -> Self {
        ProgramError::Custom(e.spec_index())
    }
}

/// Distinct registry errors are reported under distinct numbers.
pub proof fn lemma_index_injective(a: AnyError, b: AnyError)
    ensures
        a.spec_index() == b.spec_index() ==> a == b,
{
}

} // verus!
