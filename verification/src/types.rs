//! Core value types of the service marketplace: ledger accounts, identifiers,
//! percentages, typed argument fields, blueprints, and the error taxonomy.
use vstd::prelude::*;

verus! {

/// Balances are ledger-native 128-bit amounts.
pub type Balance = u128;

/// Upper bound on the byte length of a blueprint's metadata.
pub const MAX_METADATA_LENGTH: usize = 1024;
/// Upper bound on the number of job definitions in one blueprint.
pub const MAX_JOBS_PER_SERVICE: usize = 1024;
/// Upper bound on the number of typed fields in one argument list.
pub const MAX_FIELDS: usize = 256;
/// Upper bound on the byte size of a single typed field.
pub const MAX_FIELDS_SIZE: usize = 1024;
/// Upper bound on the number of operators named in one service request.
pub const MAX_OPERATORS_PER_SERVICE: usize = 1024;
/// Upper bound on the number of permitted callers of one service.
pub const MAX_PERMITTED_CALLERS: usize = 256;
/// Upper bound on the number of assets bound to one service.
pub const MAX_ASSETS_PER_SERVICE: usize = 64;
/// Number of eras a scheduled slash stays pending and disputable.
pub const SLASH_DEFER_DURATION: u32 = 7;

/// A ledger account identity: 32 opaque bytes.
pub struct Account {
    pub bytes: Vec<u8>,
}

impl View for Account {
    type V = Seq<u8>;

    open spec fn view(&self) -> Seq<u8> {
        self.bytes@
    }
}

impl Account {
    /// An account identity is well formed when it is exactly 32 bytes.
    pub open spec fn wf(&self) -> bool {
        self@.len() == 32
    }
}

/// Compares two accounts by identity.
pub fn account_eq(a: &Account, b: &Account) -> (r: bool)
    ensures
        r == (a@ == b@),
{
    if a.bytes.len() != b.bytes.len() {
        return false;
    }
    let n = a.bytes.len();
    let mut i: usize = 0;
    while i < n
        invariant
            n == a@.len(),
            n == b@.len(),
            i <= n,
            forall|j: int| 0 <= j < i ==> a@[j] == b@[j],
        decreases n - i,
    {
        if a.bytes[i] != b.bytes[i] {
            return false;
        }
        i += 1;
    }
    proof {
        assert(a@ =~= b@);
    }
    true
}

/// Copies an account identity.
pub fn clone_account(a: &Account) -> (r: Account)
    ensures
        r@ == a@,
{
    let mut bytes: Vec<u8> = Vec::new();
    let n = a.bytes.len();
    let mut i: usize = 0;
    while i < n
        invariant
            n == a@.len(),
            i <= n,
            bytes@ =~= a@.subrange(0, i as int),
        decreases n - i,
    {
        bytes.push(a.bytes[i]);
        i += 1;
    }
    proof {
        assert(bytes@ =~= a@);
    }
    Account { bytes }
}

/// The exact share `percent` of `amount`, rounded down.
pub open spec fn spec_percent_of(amount: Balance, percent: u8) -> int {
    (amount * percent) / 100
}

/// Computes `percent` of `amount`, rounded down. Never exceeds `amount`.
pub fn percent_of(amount: Balance, percent: u8) -> (r: Balance)
    requires
        percent <= 100,
    ensures
        r == spec_percent_of(amount, percent),
        r <= amount,
{
    let q: u128 = amount / 100;
    let rem: u128 = amount % 100;
    let p: u128 = percent as u128;
    proof {
        assert(amount == 100 * q + rem && rem < 100) by (nonlinear_arith)
            requires
                q == amount / 100,
                rem == amount % 100,
        ;
        assert(q * p <= q * 100) by (nonlinear_arith)
            requires
                p <= 100,
        ;
        assert(100 * q <= amount) by (nonlinear_arith)
            requires
                amount == 100 * q + rem,
                rem >= 0,
        ;
        assert(rem * p < 100 * 100) by (nonlinear_arith)
            requires
                rem < 100,
                p <= 100,
        ;
        let d = (rem * p) / 100;
        let m = (rem * p) % 100;
        assert(rem * p == 100 * d + m && m < 100 && d >= 0) by (nonlinear_arith)
            requires
                d == (rem * p) / 100,
                m == (rem * p) % 100,
                rem >= 0,
                p >= 0,
        ;
        assert(amount * p == 100 * (q * p + d) + m) by (nonlinear_arith)
            requires
                amount == 100 * q + rem,
                rem * p == 100 * d + m,
        ;
        assert((amount * p) / 100 == q * p + d) by (nonlinear_arith)
            requires
                amount * p == 100 * (q * p + d) + m,
                0 <= m < 100,
                amount >= 0,
                p >= 0,
                q * p + d >= 0,
        ;
        assert(rem * p <= rem * 100) by (nonlinear_arith)
            requires
                p <= 100,
                rem >= 0,
        ;
        assert(d <= rem) by (nonlinear_arith)
            requires
                rem * p == 100 * d + m,
                m >= 0,
                rem * p <= rem * 100,
        ;
        assert(q * p + d <= amount) by (nonlinear_arith)
            requires
                q * p <= q * 100,
                amount == 100 * q + rem,
                d <= rem,
        ;
    }
    let scaled: u128 = q * p;
    let fixup: u128 = (rem * p) / 100;
    scaled + fixup
}

/// Who issued a command: a signed ledger account, or the root-equivalent
/// force origin of the surrounding runtime.
pub enum Origin {
    Root,
    Signed(Account),
}

/// Whether an origin is the root-equivalent force origin.
pub open spec fn origin_is_root(o: Origin) -> bool {
    o is Root
}

/// Whether an origin is signed by the account identity `w`.
pub open spec fn origin_signed_by(o: Origin, w: Seq<u8>) -> bool {
    match o {
        Origin::Root => false,
        Origin::Signed(a) => a@ == w,
    }
}

/// A caller-supplied percentage clamped into `0..=100`.
pub open spec fn spec_clamp_percent(p: u8) -> u8 {
    if p <= 100 {
        p
    } else {
        100
    }
}

/// Clamps a caller-supplied percentage to at most one hundred, as the
/// ledger's percent type does at construction.
pub fn from_percent(p: u8) -> (r: u8)
    ensures
        r == spec_clamp_percent(p),
        r <= 100,
{
    if p > 100 {
        100
    } else {
        p
    }
}

/// Why a marketplace command was refused. Each failure leaves state unchanged.
#[derive(Clone, Copy, PartialEq, Eq, Structural, Debug)]
pub enum Error {
    /// A size bound of the data model was exceeded.
    OutOfBounds,
    /// The named blueprint id does not exist.
    UnknownBlueprint,
    /// The caller is already registered for this blueprint.
    AlreadyRegistered,
    /// The caller is not registered for this blueprint.
    NotRegistered,
    /// The operator is still bound into a live service of this blueprint.
    HasActiveServices,
    /// A service request named no operators at all.
    EmptyOperatorSet,
    /// More operators were named than one service admits.
    TooManyOperators,
    /// More permitted callers were named than one service admits.
    TooManyCallers,
    /// More assets were named than one service admits.
    TooManyAssets,
    /// A named operator holds no registration for the blueprint.
    OperatorNotRegistered,
    /// No pending service request carries the given id.
    NotFound,
    /// The caller lacks the required relationship to the entity.
    Unauthorized,
    /// The operator has already voted on this request.
    AlreadyVoted,
    /// No active service carries the given id.
    ServiceNotFound,
    /// The caller is not among the service's permitted callers.
    CallerNotPermitted,
    /// The job index is outside the blueprint's job table.
    InvalidJobIndex,
    /// An argument list does not match the declared field schema.
    TypeCheck,
    /// No open job call carries the given call id.
    CallNotFound,
    /// The operator already submitted a result for this call.
    DuplicateResult,
    /// The accused account is not an operator of the service.
    OperatorNotInService,
    /// No pending slash sits at the given era and index.
    SlashNotFound,
    /// The caller's free balance cannot cover the transfer.
    InsufficientBalance,
    /// A counter or balance would leave its machine range.
    ArithmeticOverflow,
}

/// Copies a byte string.
pub fn clone_bytes(a: &Vec<u8>) -> (r: Vec<u8>)
    ensures
        r@ == a@,
{
    let mut bytes: Vec<u8> = Vec::new();
    let n = a.len();
    let mut i: usize = 0;
    while i < n
        invariant
            n == a@.len(),
            i <= n,
            bytes@ =~= a@.subrange(0, i as int),
        decreases n - i,
    {
        bytes.push(a[i]);
        i += 1;
    }
    proof {
        assert(bytes@ =~= a@);
    }
    bytes
}

/// Compares two byte strings.
pub fn bytes_eq(a: &Vec<u8>, b: &Vec<u8>) -> (r: bool)
    ensures
        r == (a@ == b@),
{
    if a.len() != b.len() {
        return false;
    }
    let n = a.len();
    let mut i: usize = 0;
    while i < n
        invariant
            n == a@.len(),
            n == b@.len(),
            i <= n,
            forall|j: int| 0 <= j < i ==> a@[j] == b@[j],
        decreases n - i,
    {
        if a[i] != b[i] {
            return false;
        }
        i += 1;
    }
    proof {
        assert(a@ =~= b@);
    }
    true
}

/// Whether the account identity `w` occurs in `s`.
pub open spec fn contains_acct(s: Seq<Account>, w: Seq<u8>) -> bool {
    exists|i: int| 0 <= i < s.len() && s[i]@ == w
}

/// All account identities in `s` are pairwise distinct.
pub open spec fn distinct_accts(s: Seq<Account>) -> bool {
    forall|i: int, j: int| 0 <= i < j < s.len() ==> s[i]@ != s[j]@
}

/// Looks up `who` in a list of accounts.
pub fn find_account(v: &Vec<Account>, who: &Account) -> (r: Option<usize>)
    ensures
        match r {
            Some(i) => i < v@.len() && v@[i as int]@ == who@,
            None => !contains_acct(v@, who@),
        },
{
    let n = v.len();
    let mut i: usize = 0;
    while i < n
        invariant
            n == v@.len(),
            i <= n,
            forall|j: int| 0 <= j < i ==> v@[j]@ != who@,
        decreases n - i,
    {
        if account_eq(&v[i], who) {
            return Some(i);
        }
        i += 1;
    }
    None
}

/// One typed argument value of a job or registration call.
pub enum Field {
    U8(u8),
    U64(u64),
    Bytes(Vec<u8>),
    AccountId(Account),
}

/// The mathematical value of a `Field`.
pub enum FieldView {
    U8(u8),
    U64(u64),
    Bytes(Seq<u8>),
    AccountId(Seq<u8>),
}

impl View for Field {
    type V = FieldView;

    open spec fn view(&self) -> FieldView {
        match self {
            Field::U8(x) => FieldView::U8(*x),
            Field::U64(x) => FieldView::U64(*x),
            Field::Bytes(b) => FieldView::Bytes(b@),
            Field::AccountId(a) => FieldView::AccountId(a@),
        }
    }
}

/// Field schemas are lists of these tag bytes, one per expected field.
pub const TAG_U8: u8 = 0;
/// Tag byte of a `Field::U64`.
pub const TAG_U64: u8 = 1;
/// Tag byte of a `Field::Bytes`.
pub const TAG_BYTES: u8 = 2;
/// Tag byte of a `Field::AccountId`.
pub const TAG_ACCOUNT: u8 = 3;

/// The schema tag a field value answers to.
pub open spec fn spec_field_tag(f: FieldView) -> u8 {
    match f {
        FieldView::U8(_) => TAG_U8,
        FieldView::U64(_) => TAG_U64,
        FieldView::Bytes(_) => TAG_BYTES,
        FieldView::AccountId(_) => TAG_ACCOUNT,
    }
}

/// Returns the schema tag of `f`.
pub fn field_tag(f: &Field) -> (r: u8)
    ensures
        r == spec_field_tag(f@),
{
    match f {
        Field::U8(_) => TAG_U8,
        Field::U64(_) => TAG_U64,
        Field::Bytes(_) => TAG_BYTES,
        Field::AccountId(_) => TAG_ACCOUNT,
    }
}

/// The byte size a field value accounts for under the size bounds.
pub open spec fn spec_field_size(f: FieldView) -> int {
    match f {
        FieldView::U8(_) => 1,
        FieldView::U64(_) => 8,
        FieldView::Bytes(b) => b.len() as int,
        FieldView::AccountId(_) => 32,
    }
}

/// A field list matches a schema when lengths agree and every field answers
/// to its tag and keeps within the per-field size bound.
pub open spec fn fields_match_schema(fields: Seq<Field>, schema: Seq<u8>) -> bool {
    &&& fields.len() == schema.len()
    &&& forall|i: int|
        0 <= i < fields.len() ==> spec_field_tag(#[trigger] fields[i]@) == schema[i]
    &&& forall|i: int|
        0 <= i < fields.len() ==> spec_field_size(#[trigger] fields[i]@) <= MAX_FIELDS_SIZE as int
}

/// Checks a field list against a schema of tag bytes.
pub fn check_fields(fields: &Vec<Field>, schema: &Vec<u8>) -> (r: bool)
    ensures
        r == fields_match_schema(fields@, schema@),
{
    if fields.len() != schema.len() {
        return false;
    }
    let n = fields.len();
    let mut i: usize = 0;
    while i < n
        invariant
            n == fields@.len(),
            n == schema@.len(),
            i <= n,
            forall|j: int|
                0 <= j < i ==> spec_field_tag(#[trigger] fields@[j]@) == schema@[j],
            forall|j: int|
                0 <= j < i ==> spec_field_size(#[trigger] fields@[j]@) <= MAX_FIELDS_SIZE as int,
        decreases n - i,
    {
        if field_tag(&fields[i]) != schema[i] {
            return false;
        }
        let size_ok = match &fields[i] {
            Field::U8(_) => true,
            Field::U64(_) => true,
            Field::Bytes(b) => b.len() <= MAX_FIELDS_SIZE,
            Field::AccountId(_) => true,
        };
        if !size_ok {
            return false;
        }
        i += 1;
    }
    true
}

/// Operator-chosen registration metadata: an opaque bounded key blob.
pub struct Preferences {
    pub key: Vec<u8>,
}

impl View for Preferences {
    type V = Seq<u8>;

    open spec fn view(&self) -> Seq<u8> {
        self.key@
    }
}

/// One job a blueprint's backend can perform: a name and a field schema.
pub struct JobDef {
    pub name: Vec<u8>,
    pub params: Vec<u8>,
}

/// An immutable service blueprint: metadata, the schemas that registration
/// and request arguments must match, and the job table.
pub struct Blueprint {
    pub metadata: Vec<u8>,
    pub registration_params: Vec<u8>,
    pub request_params: Vec<u8>,
    pub jobs: Vec<JobDef>,
}

impl Blueprint {
    /// All size bounds a blueprint must keep at creation.
    pub open spec fn within_bounds(&self) -> bool {
        &&& self.metadata@.len() <= MAX_METADATA_LENGTH as int
        &&& self.registration_params@.len() <= MAX_FIELDS as int
        &&& self.request_params@.len() <= MAX_FIELDS as int
        &&& self.jobs@.len() <= MAX_JOBS_PER_SERVICE as int
        &&& forall|i: int|
            0 <= i < self.jobs@.len() ==> (#[trigger] self.jobs@[i]).name@.len()
                <= MAX_METADATA_LENGTH as int
        &&& forall|i: int|
            0 <= i < self.jobs@.len() ==> (#[trigger] self.jobs@[i]).params@.len()
                <= MAX_FIELDS as int
    }
}

/// Checks every size bound of a blueprint.
pub fn check_blueprint_bounds(b: &Blueprint) -> (r: bool)
    ensures
        r == b.within_bounds(),
{
    if b.metadata.len() > MAX_METADATA_LENGTH {
        return false;
    }
    if b.registration_params.len() > MAX_FIELDS {
        return false;
    }
    if b.request_params.len() > MAX_FIELDS {
        return false;
    }
    if b.jobs.len() > MAX_JOBS_PER_SERVICE {
        return false;
    }
    let n = b.jobs.len();
    let mut i: usize = 0;
    while i < n
        invariant
            n == b.jobs@.len(),
            i <= n,
            forall|j: int|
                0 <= j < i ==> (#[trigger] b.jobs@[j]).name@.len() <= MAX_METADATA_LENGTH as int,
            forall|j: int|
                0 <= j < i ==> (#[trigger] b.jobs@[j]).params@.len() <= MAX_FIELDS as int,
        decreases n - i,
    {
        if b.jobs[i].name.len() > MAX_METADATA_LENGTH {
            return false;
        }
        if b.jobs[i].params.len() > MAX_FIELDS {
            return false;
        }
        i += 1;
    }
    true
}

} // verus!
