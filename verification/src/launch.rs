//! Launch validation: the legality of an NDRange against device and kernel limits.

use vstd::prelude::*;
use vstd::arithmetic::power2::pow2;
use crate::device::Device;
use crate::device::Platform;
use crate::error::ErrorKind;
use crate::event::CommandKind;
use crate::event::EventGraph;
use crate::event::Work;
use crate::event::terminal_kept;
use crate::kernel::BuildStatus;
use crate::kernel::Kernel;
use crate::queue::Queue;
use crate::queue::queued_command;

verus! {

/// The largest value representable in an address of `bits` bits: `2^bits - 1`.
pub open spec fn address_max(bits: u32) -> int {
    pow2(bits as nat) - 1
}

/// Shifting the all-ones word right leaves exactly the low `bits` bits set.
pub proof fn lemma_address_max_is_shift(bits: u32)
    requires
        1 <= bits <= 64,
    ensures
        (u64::MAX >> ((64 - bits) as u64)) == address_max(bits),
        0 < address_max(bits) <= u64::MAX,
{
    let s: u64 = (64 - bits) as u64;
    vstd::bits::lemma_u64_shr_is_div(u64::MAX, s);
    vstd::arithmetic::power2::lemma_pow2_adds(bits as nat, s as nat);
    vstd::arithmetic::power2::lemma_pow2_pos(bits as nat);
    vstd::arithmetic::power2::lemma_pow2_pos(s as nat);
    vstd::arithmetic::power2::lemma2_to64_rest();
    let d = pow2(s as nat) as int;
    let q = pow2(bits as nat) - 1;
    let r = d - 1;
    assert(pow2(64) == 0x1_0000_0000_0000_0000);
    assert(q * d + r == u64::MAX) by (nonlinear_arith)
        requires
            (q + 1) * d == 0x1_0000_0000_0000_0000,
            r == d - 1,
    ;
    vstd::arithmetic::div_mod::lemma_fundamental_div_mod_converse(u64::MAX as int, d, q, r);
    assert(q <= u64::MAX) by (nonlinear_arith)
        requires
            q * d + r == u64::MAX,
            d >= 1,
            r >= 0,
            q >= 0,
    ;
}

/// The largest value representable in an address of `bits` bits.
pub fn device_address_max(bits: u32) -> (m: u64)
    requires
        1 <= bits <= 64,
    ensures
        m == address_max(bits),
{
    proof {
        lemma_address_max_is_shift(bits);
    }
    u64::MAX >> ((64 - bits) as u64)
}

/// A launch request: dimensionality and, per dimension, offset, global size
/// and work-group size. An absent array stands for all zeros.
#[derive(Debug)]
pub struct NDRange {
    pub work_dim: u32,
    pub global_work_offset: Option<Vec<usize>>,
    pub global_work_size: Option<Vec<usize>>,
    pub local_work_size: Option<Vec<usize>>,
}

/// The mathematical content of an [`NDRange`].
pub struct RangeView {
    pub work_dim: u32,
    pub global_work_offset: Option<Seq<usize>>,
    pub global_work_size: Option<Seq<usize>>,
    pub local_work_size: Option<Seq<usize>>,
}

/// The entries of an optional array.
pub open spec fn entries(arr: Option<Vec<usize>>) -> Option<Seq<usize>> {
    match arr {
        Some(v) => Some(v@),
        None => None,
    }
}

impl View for NDRange {
    type V = RangeView;

    open spec fn view(&self) -> RangeView {
        RangeView {
            work_dim: self.work_dim,
            global_work_offset: entries(self.global_work_offset),
            global_work_size: entries(self.global_work_size),
            local_work_size: entries(self.local_work_size),
        }
    }
}

/// The limits a launch is held against: those of the device and those the
/// kernel's build for that device imposes.
#[derive(Debug)]
pub struct LaunchLimits {
    pub max_dimensions: u32,
    pub address_bits: u32,
    pub max_block_sizes: Vec<usize>,
    pub required_work_group_size: [usize; 3],
    pub max_threads_per_block: usize,
}

/// The mathematical content of [`LaunchLimits`].
pub struct LimitsView {
    pub max_dimensions: u32,
    pub address_bits: u32,
    pub max_block_sizes: Seq<usize>,
    pub required_work_group_size: Seq<usize>,
    pub max_threads_per_block: usize,
}

impl View for LaunchLimits {
    type V = LimitsView;

    open spec fn view(&self) -> LimitsView {
        LimitsView {
            max_dimensions: self.max_dimensions,
            address_bits: self.address_bits,
            max_block_sizes: self.max_block_sizes@,
            required_work_group_size: self.required_work_group_size@,
            max_threads_per_block: self.max_threads_per_block,
        }
    }
}

impl LimitsView {
    /// Addresses are 1 to 64 bits wide, and each of the at most three
    /// dimensions has a block size limit and a required size.
    pub open spec fn wf(self) -> bool {
        &&& 1 <= self.address_bits <= 64
        &&& self.max_dimensions <= 3
        &&& self.max_block_sizes.len() >= self.max_dimensions
        &&& self.required_work_group_size.len() == 3
    }
}

impl LaunchLimits {
    /// The limits are usable: see [`LimitsView::wf`].
    pub open spec fn wf(self) -> bool {
        self@.wf()
    }
}

/// Entry `i` of an optional array, zero where the array is absent.
pub open spec fn entry_or_zero(arr: Option<Seq<usize>>, i: int) -> usize {
    match arr {
        Some(v) => v[i],
        None => 0,
    }
}

/// An optional array has at least `n` entries where it is present.
pub open spec fn covers(arr: Option<Seq<usize>>, n: int) -> bool {
    match arr {
        Some(v) => v.len() >= n,
        None => true,
    }
}

impl RangeView {
    /// Where the dimensionality is one the device accepts, every array that
    /// is present has an entry for each dimension.
    pub open spec fn wf(self, max_dimensions: u32) -> bool {
        1 <= self.work_dim <= max_dimensions ==> {
            &&& covers(self.global_work_offset, self.work_dim as int)
            &&& covers(self.global_work_size, self.work_dim as int)
            &&& covers(self.local_work_size, self.work_dim as int)
        }
    }

    /// Global offset in dimension `i`.
    pub open spec fn offset(self, i: int) -> usize {
        entry_or_zero(self.global_work_offset, i)
    }

    /// Global size in dimension `i`.
    pub open spec fn global(self, i: int) -> usize {
        entry_or_zero(self.global_work_size, i)
    }

    /// Work-group size in dimension `i`; zero where the client left it open.
    pub open spec fn local(self, i: int) -> usize {
        entry_or_zero(self.local_work_size, i)
    }

    /// The product of the work-group sizes of the first `n` dimensions.
    pub open spec fn local_product(self, n: int) -> int
        decreases n,
    {
        if n <= 0 {
            1
        } else {
            self.local_product(n - 1) * self.local(n - 1)
        }
    }

    /// Some dimension below `n` has global size zero.
    pub open spec fn has_empty_dimension(self, n: int) -> bool {
        exists|i: int| 0 <= i < n && #[trigger] self.global(i) == 0
    }
}

/// The check of one dimension, most specific failure first.
pub open spec fn dim_error(range: RangeView, limits: LimitsView, i: int) -> Option<ErrorKind> {
    let lws = range.local(i);
    let gws = range.global(i);
    let gwo = range.offset(i);
    let required = limits.required_work_group_size[i];
    if lws > limits.max_block_sizes[i] {
        Some(ErrorKind::InvalidWorkItemSize)
    } else if lws != 0 && gws % lws != 0 {
        Some(ErrorKind::InvalidWorkGroupSize)
    } else if lws != 0 && required != 0 && lws != required {
        Some(ErrorKind::InvalidWorkGroupSize)
    } else if gws > address_max(limits.address_bits) {
        Some(ErrorKind::InvalidGlobalWorkSize)
    } else if gws + gwo > address_max(limits.address_bits) {
        Some(ErrorKind::InvalidGlobalOffset)
    } else {
        None
    }
}

/// The failure of the lowest failing dimension below `n`.
pub open spec fn first_dim_error(range: RangeView, limits: LimitsView, n: int) -> Option<
    ErrorKind,
>
    decreases n,
{
    if n <= 0 {
        None
    } else {
        match first_dim_error(range, limits, n - 1) {
            Some(e) => Some(e),
            None => dim_error(range, limits, n - 1),
        }
    }
}

/// Once a dimension has failed, looking at further dimensions changes nothing.
pub proof fn lemma_first_dim_error_stays(range: RangeView, limits: LimitsView, n: int, m: int)
    requires
        0 <= n <= m,
        first_dim_error(range, limits, n) is Some,
    ensures
        first_dim_error(range, limits, m) == first_dim_error(range, limits, n),
    decreases m - n,
{
    if n < m {
        lemma_first_dim_error_stays(range, limits, n, m - 1);
    }
}

/// `first_dim_error` reports the failure of the least failing dimension.
pub proof fn lemma_first_dim_error_is_least(range: RangeView, limits: LimitsView, n: int, i: int)
    requires
        0 <= i < n,
        dim_error(range, limits, i) is Some,
        forall|j: int| 0 <= j < i ==> dim_error(range, limits, j) is None,
    ensures
        first_dim_error(range, limits, n) == dim_error(range, limits, i),
{
    lemma_no_dim_error(range, limits, i);
    assert(first_dim_error(range, limits, i + 1) == dim_error(range, limits, i));
    lemma_first_dim_error_stays(range, limits, i + 1, n);
}

/// No dimension below `n` fails exactly when `first_dim_error` finds nothing.
pub proof fn lemma_no_dim_error(range: RangeView, limits: LimitsView, n: int)
    requires
        0 <= n,
    ensures
        first_dim_error(range, limits, n) is None <==> forall|j: int|
            0 <= j < n ==> dim_error(range, limits, j) is None,
    decreases n,
{
    if n > 0 {
        lemma_no_dim_error(range, limits, n - 1);
    }
}

/// Why the geometry of a launch is refused, if it is.
///
/// The dimensionality is checked first, then the dimensions in order, then
/// the size of a fully specified work-group against the kernel's limit.
pub open spec fn geometry_error(range: RangeView, limits: LimitsView) -> Option<ErrorKind> {
    if range.work_dim == 0 || range.work_dim > limits.max_dimensions {
        Some(ErrorKind::InvalidWorkDimension)
    } else {
        match first_dim_error(range, limits, range.work_dim as int) {
            Some(e) => Some(e),
            None => {
                let threads = range.local_product(range.work_dim as int);
                if threads != 0 && threads > limits.max_threads_per_block {
                    Some(ErrorKind::InvalidWorkGroupSize)
                } else {
                    None
                }
            },
        }
    }
}

/// Reads entry `i` of an optional array.
fn entry(arr: &Option<Vec<usize>>, i: usize) -> (v: usize)
    requires
        covers(entries(*arr), i + 1),
    ensures
        v == entry_or_zero(entries(*arr), i as int),
{
    match arr {
        Some(a) => a[i],
        None => 0,
    }
}

/// Checks one dimension of a launch.
fn check_dimension(range: &NDRange, limits: &LaunchLimits, device_max: u64, i: usize) -> (r:
    Option<ErrorKind>)
    requires
        limits.wf(),
        device_max == address_max(limits.address_bits),
        i < range.work_dim <= limits.max_dimensions,
        range@.wf(limits.max_dimensions),
    ensures
        r == dim_error(range@, limits@, i as int),
{
    let lws = entry(&range.local_work_size, i);
    let gws = entry(&range.global_work_size, i);
    let gwo = entry(&range.global_work_offset, i);
    let required = limits.required_work_group_size[i];
    if lws > limits.max_block_sizes[i] {
        return Some(ErrorKind::InvalidWorkItemSize);
    }
    if lws != 0 && gws % lws != 0 {
        return Some(ErrorKind::InvalidWorkGroupSize);
    }
    if lws != 0 && required != 0 && lws != required {
        return Some(ErrorKind::InvalidWorkGroupSize);
    }
    if gws as u64 > device_max {
        return Some(ErrorKind::InvalidGlobalWorkSize);
    }
    match (gws as u64).checked_add(gwo as u64) {
        Some(end) => {
            if end > device_max {
                return Some(ErrorKind::InvalidGlobalOffset);
            }
        },
        None => {
            return Some(ErrorKind::InvalidGlobalOffset);
        },
    }
    None
}

/// Checks the geometry of a launch against the limits.
pub fn check_geometry(range: &NDRange, limits: &LaunchLimits) -> (r: Result<(), ErrorKind>)
    requires
        limits.wf(),
        range@.wf(limits.max_dimensions),
    ensures
        r == match geometry_error(range@, limits@) {
            Some(e) => Err::<(), ErrorKind>(e),
            None => Ok(()),
        },
{
    if range.work_dim == 0 || range.work_dim > limits.max_dimensions {
        return Err(ErrorKind::InvalidWorkDimension);
    }
    let device_max = device_address_max(limits.address_bits);
    let dims = range.work_dim as usize;
    // The product of the work-group sizes so far, unless it left the machine word.
    let mut threads: Option<usize> = Some(1);
    let mut i: usize = 0;
    while i < dims
        invariant
            limits.wf(),
            range@.wf(limits.max_dimensions),
            1 <= range.work_dim <= limits.max_dimensions,
            dims == range.work_dim,
            device_max == address_max(limits.address_bits),
            i <= dims,
            first_dim_error(range@, limits@, i as int) is None,
            match threads {
                Some(t) => t == range@.local_product(i as int),
                None => range@.local_product(i as int) > usize::MAX,
            },
        decreases dims - i,
    {
        let lws = entry(&range.local_work_size, i);
        let ghost before = range@.local_product(i as int);
        threads =
        if lws == 0 {
            assert(before * lws == 0) by (nonlinear_arith)
                requires
                    lws == 0,
            ;
            Some(0)
        } else {
            match threads {
                Some(t) => {
                    assert(t * lws == before * lws) by (nonlinear_arith)
                        requires
                            t == before,
                    ;
                    t.checked_mul(lws)
                },
                None => {
                    assert(before * lws > usize::MAX) by (nonlinear_arith)
                        requires
                            before > usize::MAX,
                            lws >= 1,
                    ;
                    None
                },
            }
        };
        assert(range@.local_product(i + 1) == before * lws);
        if let Some(e) = check_dimension(range, limits, device_max, i) {
            proof {
                lemma_first_dim_error_stays(range@, limits@, i + 1, dims as int);
            }
            return Err(e);
        }
        i += 1;
    }
    match threads {
        Some(t) => {
            if t != 0 && t > limits.max_threads_per_block {
                return Err(ErrorKind::InvalidWorkGroupSize);
            }
        },
        None => {
            return Err(ErrorKind::InvalidWorkGroupSize);
        },
    }
    Ok(())
}


/// The greatest common divisor, by Euclid's rule.
pub open spec fn gcd(a: nat, b: nat) -> nat
    decreases b,
{
    if b == 0 {
        a
    } else {
        gcd(b, a % b)
    }
}

/// `k` times `d`.
pub open spec fn multiple(d: nat, k: nat) -> nat {
    d * k
}

/// `d` divides `n`.
pub open spec fn divides(d: nat, n: nat) -> bool {
    exists|k: nat| n == #[trigger] multiple(d, k)
}

/// The greatest common divisor divides both numbers.
pub proof fn lemma_gcd_divides(a: nat, b: nat)
    ensures
        divides(gcd(a, b), a),
        divides(gcd(a, b), b),
    decreases b,
{
    if b == 0 {
        assert(a == multiple(a, 1));
        assert(0nat == multiple(a, 0));
    } else {
        lemma_gcd_divides(b, a % b);
        let g = gcd(b, a % b);
        let k1 = choose|k: nat| b == #[trigger] multiple(g, k);
        let k2 = choose|k: nat| a % b == #[trigger] multiple(g, k);
        vstd::arithmetic::div_mod::lemma_fundamental_div_mod(a as int, b as int);
        let q = a / b;
        assert(a == g * (k1 * q + k2)) by (nonlinear_arith)
            requires
                a == b * q + a % b,
                b == g * k1,
                a % b == g * k2,
        ;
        assert(a == multiple(g, k1 * q + k2));
    }
}

/// The greatest common divisor of a positive number and any number is positive.
pub proof fn lemma_gcd_positive(a: nat, b: nat)
    requires
        a > 0 || b > 0,
    ensures
        gcd(a, b) > 0,
    decreases b,
{
    if b != 0 {
        lemma_gcd_positive(b, a % b);
    }
}

/// A divisor of a positive number is positive, no larger than the number,
/// and leaves no remainder.
pub proof fn lemma_divisor_bounds(d: nat, n: nat)
    requires
        divides(d, n),
        n > 0,
    ensures
        0 < d <= n,
        n % d == 0,
{
    let k = choose|k: nat| n == #[trigger] multiple(d, k);
    assert(0 < d <= n) by (nonlinear_arith)
        requires
            n == d * k,
            n > 0,
    ;
    vstd::arithmetic::div_mod::lemma_mod_multiples_basic(k as int, d as int);
    assert(d * k == k * d) by (nonlinear_arith);
}

/// Computes the greatest common divisor.
pub fn greatest_common_divisor(a: usize, b: usize) -> (g: usize)
    ensures
        g == gcd(a as nat, b as nat),
{
    let mut x = a;
    let mut y = b;
    while y != 0
        invariant
            gcd(x as nat, y as nat) == gcd(a as nat, b as nat),
        decreases y,
    {
        let r = x % y;
        x = y;
        y = r;
    }
    x
}

/// The number of threads a dimension may take: what is left of the
/// kernel's allowance, capped by the dimension's limit, and one at least.
pub open spec fn dimension_allowance(threads: usize, limit: usize) -> usize {
    let t = if threads < limit {
        threads
    } else {
        limit
    };
    if t < 1 {
        1
    } else {
        t
    }
}

/// The work-group sizes suggested for the first `n` dimensions, and what
/// is then left of the kernel's allowance of threads.
///
/// Each dimension in turn takes the greatest common divisor of its global
/// size and its allowance.
pub open spec fn suggestion(range: RangeView, limits: LimitsView, n: int) -> (Seq<usize>, usize)
    decreases n,
{
    if n <= 0 {
        (Seq::empty(), limits.max_threads_per_block)
    } else {
        let prev = suggestion(range, limits, n - 1);
        let t = dimension_allowance(prev.1, limits.max_block_sizes[n - 1]);
        let b = gcd(t as nat, range.global(n - 1) as nat) as usize;
        (prev.0.push(b), (prev.1 / b) as usize)
    }
}

/// The product of the first `n` entries.
pub open spec fn product(s: Seq<usize>, n: int) -> int
    decreases n,
{
    if n <= 0 {
        1
    } else {
        product(s, n - 1) * s[n - 1]
    }
}

/// The suggested sizes are legal: each is at least one and divides its
/// dimension's global size; where the kernel may run a thread at all and
/// the dimensions admit one, each stays within its dimension's limit and
/// all together within the kernel's allowance.
pub proof fn lemma_suggestion_is_legal(range: RangeView, limits: LimitsView, n: int)
    requires
        0 <= n <= limits.max_block_sizes.len(),
        forall|i: int| 0 <= i < n ==> range.global(i) > 0,
    ensures
        suggestion(range, limits, n).0.len() == n,
        forall|i: int|
            0 <= i < n ==> {
                &&& (#[trigger] suggestion(range, limits, n).0[i]) >= 1
                &&& range.global(i) % suggestion(range, limits, n).0[i] == 0
                &&& suggestion(range, limits, n).0[i] == suggestion(range, limits, i + 1).0[i]
            },
        product(suggestion(range, limits, n).0, n) * suggestion(range, limits, n).1
            <= limits.max_threads_per_block,
        product(suggestion(range, limits, n).0, n) >= 1,
        limits.max_threads_per_block >= 1 ==> suggestion(range, limits, n).1 >= 1,
        limits.max_threads_per_block >= 1 ==> forall|i: int|
            0 <= i < n && limits.max_block_sizes[i] >= 1 ==> (#[trigger] suggestion(
                range,
                limits,
                n,
            ).0[i]) <= limits.max_block_sizes[i],
    decreases n,
{
    if n > 0 {
        lemma_suggestion_is_legal(range, limits, n - 1);
        let prev = suggestion(range, limits, n - 1);
        let cur = suggestion(range, limits, n);
        let t = dimension_allowance(prev.1, limits.max_block_sizes[n - 1]);
        let g = range.global(n - 1);
        lemma_gcd_divides(t as nat, g as nat);
        lemma_gcd_positive(t as nat, g as nat);
        lemma_divisor_bounds(gcd(t as nat, g as nat), t as nat);
        lemma_divisor_bounds(gcd(t as nat, g as nat), g as nat);
        let b = gcd(t as nat, g as nat) as usize;
        assert(cur.0 == prev.0.push(b));
        assert(cur.1 == prev.1 / b);
        lemma_product_push(prev.0, b, n - 1);
        let p = product(prev.0, n - 1);
        assert(product(cur.0, n) == p * b);
        vstd::arithmetic::div_mod::lemma_fundamental_div_mod(prev.1 as int, b as int);
        assert((p * b) * (prev.1 / b) <= p * prev.1) by (nonlinear_arith)
            requires
                prev.1 == b * (prev.1 / b) + prev.1 % b,
                prev.1 % b >= 0,
                p >= 1,
                b >= 1,
                prev.1 / b >= 0,
        ;
        assert(p * b >= 1) by (nonlinear_arith)
            requires
                p >= 1,
                b >= 1,
        ;
        if limits.max_threads_per_block >= 1 {
            assert(prev.1 >= 1);
            assert(t <= prev.1);
            assert(b <= prev.1);
            vstd::arithmetic::div_mod::lemma_div_is_ordered(b as int, prev.1 as int, b as int);
            vstd::arithmetic::div_mod::lemma_div_basics(b as int);
        }
        assert forall|i: int| 0 <= i < n implies {
            &&& (#[trigger] cur.0[i]) >= 1
            &&& range.global(i) % cur.0[i] == 0
            &&& cur.0[i] == suggestion(range, limits, i + 1).0[i]
        } by {
            if i < n - 1 {
                assert(cur.0[i] == prev.0[i]);
            }
        }
    }
}

/// The product of a sequence with one more entry.
pub proof fn lemma_product_push(s: Seq<usize>, x: usize, n: int)
    requires
        n == s.len(),
    ensures
        product(s.push(x), n + 1) == product(s, n) * x,
        forall|m: int| 0 <= m <= n ==> product(s.push(x), m) == product(s, m),
{
    assert forall|m: int| 0 <= m <= n implies product(s.push(x), m) == product(s, m) by {
        lemma_product_prefix(s, s.push(x), m);
    }
}

/// The product of the first `m` entries looks at those entries only.
pub proof fn lemma_product_prefix(a: Seq<usize>, b: Seq<usize>, m: int)
    requires
        0 <= m <= a.len(),
        m <= b.len(),
        forall|i: int| 0 <= i < m ==> a[i] == b[i],
    ensures
        product(a, m) == product(b, m),
    decreases m,
{
    if m > 0 {
        lemma_product_prefix(a, b, m - 1);
    }
}

/// Suggests a work-group size for each of the first `dims` dimensions.
pub fn suggest_local_size(range: &NDRange, limits: &LaunchLimits, dims: usize) -> (block: Vec<usize>)
    requires
        dims <= limits.max_block_sizes@.len(),
        covers(range@.global_work_size, dims as int),
        forall|i: int| 0 <= i < dims ==> range@.global(i) > 0,
    ensures
        block@ == suggestion(range@, limits@, dims as int).0,
{
    let mut block: Vec<usize> = Vec::new();
    let mut threads = limits.max_threads_per_block;
    let mut i: usize = 0;
    while i < dims
        invariant
            i <= dims <= limits.max_block_sizes@.len(),
            covers(range@.global_work_size, dims as int),
            forall|j: int| 0 <= j < dims ==> range@.global(j) > 0,
            block@ == suggestion(range@, limits@, i as int).0,
            threads == suggestion(range@, limits@, i as int).1,
        decreases dims - i,
    {
        let limit = limits.max_block_sizes[i];
        let capped = if threads < limit {
            threads
        } else {
            limit
        };
        let t = if capped < 1 {
            1
        } else {
            capped
        };
        let g = entry(&range.global_work_size, i);
        let b = greatest_common_divisor(t, g);
        proof {
            lemma_gcd_positive(t as nat, g as nat);
        }
        block.push(b);
        threads = threads / b;
        i += 1;
    }
    block
}


/// The geometry of a launch the backend is asked to run: for each of three
/// dimensions the number of work-groups, the size of a work-group and the
/// offset. Dimensions beyond the launch's own have one group of one item at
/// offset zero.
#[derive(Debug)]
pub struct Geometry {
    pub work_dim: u32,
    pub grid: Vec<usize>,
    pub block: Vec<usize>,
    pub offsets: Vec<usize>,
}

/// What is to be done for a launch that passed validation.
#[derive(Debug)]
pub enum LaunchPlan {
    /// Nothing: some dimension is empty. The command succeeds once its
    /// dependencies have, and the backend is not asked for anything.
    Trivial,
    /// The backend is to build a closure for this geometry.
    Dispatch(Geometry),
}

/// The mathematical content of a [`Geometry`].
pub struct GeometryView {
    pub work_dim: u32,
    pub grid: Seq<usize>,
    pub block: Seq<usize>,
    pub offsets: Seq<usize>,
}

/// The mathematical content of a [`LaunchPlan`].
pub enum PlanView {
    Trivial,
    Dispatch(GeometryView),
}

impl View for Geometry {
    type V = GeometryView;

    open spec fn view(&self) -> GeometryView {
        GeometryView {
            work_dim: self.work_dim,
            grid: self.grid@,
            block: self.block@,
            offsets: self.offsets@,
        }
    }
}

impl View for LaunchPlan {
    type V = PlanView;

    open spec fn view(&self) -> PlanView {
        match self {
            LaunchPlan::Trivial => PlanView::Trivial,
            LaunchPlan::Dispatch(g) => PlanView::Dispatch(g@),
        }
    }
}

impl RangeView {
    /// The client fixed the work-group size in every dimension.
    pub open spec fn fully_specified(self) -> bool {
        forall|i: int| 0 <= i < self.work_dim ==> #[trigger] self.local(i) != 0
    }
}

/// The work-group size of dimension `i`: the client's where the client
/// fixed all of them, the suggested one otherwise.
pub open spec fn block_size(range: RangeView, limits: LimitsView, i: int) -> usize {
    if range.fully_specified() {
        range.local(i)
    } else {
        suggestion(range, limits, range.work_dim as int).0[i]
    }
}

/// The geometry of a launch with no empty dimension.
pub open spec fn spec_geometry(range: RangeView, limits: LimitsView) -> GeometryView {
    GeometryView {
        work_dim: range.work_dim,
        grid: Seq::new(
            3,
            |i: int|
                if i < range.work_dim {
                    (range.global(i) / block_size(range, limits, i)) as usize
                } else {
                    1usize
                },
        ),
        block: Seq::new(
            3,
            |i: int|
                if i < range.work_dim {
                    block_size(range, limits, i)
                } else {
                    1usize
                },
        ),
        offsets: Seq::new(
            3,
            |i: int|
                if i < range.work_dim {
                    range.offset(i)
                } else {
                    0usize
                },
        ),
    }
}

/// What validating a launch comes to.
///
/// The queue and the kernel must share a context, the kernel's program
/// must be built for the queue's device, and every argument slot must be
/// bound; then the geometry is checked. A legal launch with an empty
/// dimension is trivial; any other is dispatched with its geometry.
pub open spec fn launch_outcome(
    queue_context: u64,
    device: usize,
    kernel: &Kernel,
    range: RangeView,
    limits: LimitsView,
) -> Result<PlanView, ErrorKind> {
    if queue_context != kernel.context {
        Err(ErrorKind::InvalidContext)
    } else if kernel.spec_status(device) != BuildStatus::Success {
        Err(ErrorKind::InvalidProgramExecutable)
    } else if !kernel.all_bound() {
        Err(ErrorKind::InvalidKernelArgs)
    } else {
        match geometry_error(range, limits) {
            Some(e) => Err(e),
            None => if range.has_empty_dimension(range.work_dim as int) {
                Ok(PlanView::Trivial)
            } else {
                Ok(PlanView::Dispatch(spec_geometry(range, limits)))
            },
        }
    }
}

/// The limits that device and kernel impose on a launch.
pub open spec fn spec_limits(
    dev: &Device,
    kernel: &Kernel,
    device: usize,
) -> LimitsView {
    LimitsView {
        max_dimensions: dev.spec_max_grid_dimensions(),
        address_bits: dev.screen.compute.address_bits,
        max_block_sizes: dev.spec_max_block_sizes(),
        required_work_group_size: kernel.work_group_size@,
        max_threads_per_block: kernel.spec_max_threads_per_block(device),
    }
}

/// Gathers the limits that device and kernel impose on a launch.
pub fn launch_limits(dev: &Device, kernel: &Kernel, device: usize) -> (limits:
    LaunchLimits)
    requires
        dev.wf(),
    ensures
        limits@ == spec_limits(dev, kernel, device),
        limits.wf(),
{
    broadcast use vstd::array::array_len_matches_n;

    LaunchLimits {
        max_dimensions: dev.max_grid_dimensions(),
        address_bits: dev.address_bits(),
        max_block_sizes: dev.max_block_sizes(),
        required_work_group_size: kernel.work_group_size,
        max_threads_per_block: kernel.max_threads_per_block(device),
    }
}

/// Whether some dimension of the launch has global size zero.
pub fn has_empty_dimension(range: &NDRange) -> (b: bool)
    requires
        covers(range@.global_work_size, range.work_dim as int),
    ensures
        b == range@.has_empty_dimension(range.work_dim as int),
{
    let dims = range.work_dim as usize;
    let mut i: usize = 0;
    while i < dims
        invariant
            dims == range.work_dim,
            i <= dims,
            covers(range@.global_work_size, range.work_dim as int),
            forall|j: int| 0 <= j < i ==> #[trigger] range@.global(j) != 0,
        decreases dims - i,
    {
        if entry(&range.global_work_size, i) == 0 {
            assert(range@.global(i as int) == 0);
            return true;
        }
        i += 1;
    }
    false
}

/// Whether the client fixed the work-group size in every dimension.
pub fn is_fully_specified(range: &NDRange) -> (b: bool)
    requires
        covers(range@.local_work_size, range.work_dim as int),
    ensures
        b == range@.fully_specified(),
{
    let dims = range.work_dim as usize;
    let mut i: usize = 0;
    while i < dims
        invariant
            dims == range.work_dim,
            i <= dims,
            covers(range@.local_work_size, range.work_dim as int),
            forall|j: int| 0 <= j < i ==> #[trigger] range@.local(j) != 0,
        decreases dims - i,
    {
        if entry(&range.local_work_size, i) == 0 {
            assert(range@.local(i as int) == 0);
            return false;
        }
        i += 1;
    }
    true
}

/// Computes the geometry of a launch that passed validation and has no
/// empty dimension.
pub fn build_geometry(range: &NDRange, limits: &LaunchLimits) -> (g: Geometry)
    requires
        limits.wf(),
        range@.wf(limits.max_dimensions),
        1 <= range.work_dim <= limits.max_dimensions,
        !range@.has_empty_dimension(range.work_dim as int),
    ensures
        g@ == spec_geometry(range@, limits@),
{
    let dims = range.work_dim as usize;
    let fully = is_fully_specified(range);
    assert forall|i: int| 0 <= i < dims implies range@.global(i) > 0 by {
        assert(!(range@.global(i) == 0));
    }
    let suggested = if fully {
        Vec::new()
    } else {
        suggest_local_size(range, limits, dims)
    };
    proof {
        if !fully {
            lemma_suggestion_is_legal(range@, limits@, dims as int);
        }
    }
    let mut grid: Vec<usize> = Vec::new();
    let mut block: Vec<usize> = Vec::new();
    let mut offsets: Vec<usize> = Vec::new();
    let mut i: usize = 0;
    while i < 3
        invariant
            i <= 3,
            dims == range.work_dim,
            1 <= dims <= 3,
            range@.wf(limits.max_dimensions),
            1 <= range.work_dim <= limits.max_dimensions,
            fully == range@.fully_specified(),
            !fully ==> suggested@ == suggestion(range@, limits@, dims as int).0 && suggested@.len()
                == dims,
            forall|j: int| 0 <= j < dims ==> block_size(range@, limits@, j) >= 1,
            grid@.len() == i,
            block@.len() == i,
            offsets@.len() == i,
            forall|j: int| 0 <= j < i ==> grid@[j] == spec_geometry(range@, limits@).grid[j],
            forall|j: int| 0 <= j < i ==> block@[j] == spec_geometry(range@, limits@).block[j],
            forall|j: int| 0 <= j < i ==> offsets@[j] == spec_geometry(range@, limits@).offsets[j],
        decreases 3 - i,
    {
        if i < dims {
            let b = if fully {
                entry(&range.local_work_size, i)
            } else {
                suggested[i]
            };
            assert(b == block_size(range@, limits@, i as int));
            grid.push(entry(&range.global_work_size, i) / b);
            block.push(b);
            offsets.push(entry(&range.global_work_offset, i));
        } else {
            grid.push(1);
            block.push(1);
            offsets.push(0);
        }
        i += 1;
    }
    let g = Geometry { work_dim: range.work_dim, grid, block, offsets };
    assert(g@.grid =~= spec_geometry(range@, limits@).grid);
    assert(g@.block =~= spec_geometry(range@, limits@).block);
    assert(g@.offsets =~= spec_geometry(range@, limits@).offsets);
    g
}

/// Whether every slot of the kernel holds a value.
pub fn all_args_bound(kernel: &Kernel) -> (b: bool)
    ensures
        b == kernel.all_bound(),
{
    let mut i: usize = 0;
    while i < kernel.values.len()
        invariant
            i <= kernel.values@.len(),
            forall|j: int| 0 <= j < i ==> (#[trigger] kernel.values@[j]) is Some,
        decreases kernel.values@.len() - i,
    {
        if kernel.values[i].is_none() {
            return false;
        }
        i += 1;
    }
    true
}

/// Validates a launch of `kernel` on `queue` and says what is to be done for it.
///
/// Nothing is queued and nothing changes.
pub fn validate_launch(
    platform: &Platform,
    queue: &Queue,
    kernel: &Kernel,
    range: &NDRange,
) -> (r: Result<LaunchPlan, ErrorKind>)
    requires
        platform.wf(),
        queue.device < platform.devs@.len(),
        range@.wf(platform.devs@[queue.device as int].spec_max_grid_dimensions()),
    ensures
        match r {
            Ok(plan) => launch_outcome(
                queue.context,
                queue.device,
                kernel,
                range@,
                spec_limits(&platform.devs@[queue.device as int], kernel, queue.device),
            ) == Ok::<PlanView, ErrorKind>(plan@),
            Err(e) => launch_outcome(
                queue.context,
                queue.device,
                kernel,
                range@,
                spec_limits(&platform.devs@[queue.device as int], kernel, queue.device),
            ) == Err::<PlanView, ErrorKind>(e),
        },
{
    if queue.context != kernel.context {
        return Err(ErrorKind::InvalidContext);
    }
    match kernel.status(queue.device) {
        BuildStatus::Success => {},
        _ => {
            return Err(ErrorKind::InvalidProgramExecutable);
        },
    }
    if !all_args_bound(kernel) {
        return Err(ErrorKind::InvalidKernelArgs);
    }
    let dev = &platform.devs[queue.device];
    assert(dev.wf());
    let limits = launch_limits(dev, kernel, queue.device);
    if let Err(e) = check_geometry(range, &limits) {
        return Err(e);
    }
    if has_empty_dimension(range) {
        Ok(LaunchPlan::Trivial)
    } else {
        Ok(LaunchPlan::Dispatch(build_geometry(range, &limits)))
    }
}

/// With every argument bound, on a queue of the kernel's context and a
/// device the kernel's program is built for, a launch whose geometry meets
/// the limits is accepted.
pub proof fn lemma_bound_kernel_launches(
    queue_context: u64,
    device: usize,
    kernel: &Kernel,
    range: RangeView,
    limits: LimitsView,
)
    requires
        queue_context == kernel.context,
        kernel.spec_status(device) == BuildStatus::Success,
        kernel.all_bound(),
        geometry_error(range, limits) is None,
    ensures
        launch_outcome(queue_context, device, kernel, range, limits) is Ok,
{
}

/// With a single argument slot left unset, the same launch is refused for
/// its arguments, whatever its geometry.
pub proof fn lemma_unbound_slot_is_refused(
    queue_context: u64,
    device: usize,
    kernel: &Kernel,
    range: RangeView,
    limits: LimitsView,
    slot: int,
)
    requires
        queue_context == kernel.context,
        kernel.spec_status(device) == BuildStatus::Success,
        0 <= slot < kernel.values@.len(),
        kernel.values@[slot] is None,
    ensures
        launch_outcome(queue_context, device, kernel, range, limits) == Err::<PlanView, ErrorKind>(
            ErrorKind::InvalidKernelArgs,
        ),
{
}

/// In an accepted launch every work-group size the client fixed divides
/// the global size of its dimension.
pub proof fn lemma_accepted_launch_divides(range: RangeView, limits: LimitsView, i: int)
    requires
        geometry_error(range, limits) is None,
        0 <= i < range.work_dim,
        range.local(i) != 0,
    ensures
        range.global(i) % range.local(i) == 0,
{
    lemma_no_dim_error(range, limits, range.work_dim as int);
    assert(dim_error(range, limits, i) is None);
}

/// A launch that breaks no rule but that of divisibility, in any one
/// dimension or several, is refused as an invalid work-group size.
pub proof fn lemma_indivisible_launch_is_refused(range: RangeView, limits: LimitsView, i: int)
    requires
        1 <= range.work_dim <= limits.max_dimensions,
        0 <= i < range.work_dim,
        range.local(i) != 0 && range.global(i) % range.local(i) != 0,
        forall|j: int|
            0 <= j < range.work_dim ==> {
                &&& #[trigger] range.local(j) <= limits.max_block_sizes[j]
                &&& range.local(j) != 0 && limits.required_work_group_size[j] != 0
                    ==> range.local(j) == limits.required_work_group_size[j]
                &&& range.global(j) <= address_max(limits.address_bits)
                &&& range.global(j) + range.offset(j) <= address_max(limits.address_bits)
            },
    ensures
        geometry_error(range, limits) == Some(ErrorKind::InvalidWorkGroupSize),
    decreases i,
{
    let n = range.work_dim as int;
    assert forall|j: int| 0 <= j < n implies dim_error(range, limits, j) is None || dim_error(
        range,
        limits,
        j,
    ) == Some(ErrorKind::InvalidWorkGroupSize) by {
        assert(range.local(j) <= limits.max_block_sizes[j]);
    }
    lemma_only_error(range, limits, n, ErrorKind::InvalidWorkGroupSize);
    lemma_no_dim_error(range, limits, n);
    assert(range.local(i) <= limits.max_block_sizes[i]);
    assert(dim_error(range, limits, i) is Some);
}

/// Where every failing dimension fails with `e`, so does the whole.
pub proof fn lemma_only_error(range: RangeView, limits: LimitsView, n: int, e: ErrorKind)
    requires
        0 <= n,
        forall|j: int|
            0 <= j < n ==> dim_error(range, limits, j) is None || dim_error(range, limits, j)
                == Some(e),
    ensures
        first_dim_error(range, limits, n) is None || first_dim_error(range, limits, n) == Some(e),
    decreases n,
{
    if n > 0 {
        lemma_only_error(range, limits, n - 1, e);
    }
}

/// A legal launch with an empty dimension is trivial, whatever the other
/// dimensions hold: the backend is not asked for anything.
pub proof fn lemma_empty_dimension_is_trivial(
    queue_context: u64,
    device: usize,
    kernel: &Kernel,
    range: RangeView,
    limits: LimitsView,
    i: int,
)
    requires
        launch_outcome(queue_context, device, kernel, range, limits) is Ok,
        0 <= i < range.work_dim,
        range.global(i) == 0,
    ensures
        launch_outcome(queue_context, device, kernel, range, limits) == Ok::<PlanView, ErrorKind>(
            PlanView::Trivial,
        ),
{
}

/// In the first dimension that fails, a global size beyond `2^w - 1`, for
/// address width `w`, is an invalid global work size; a global size within
/// it that the offset carries beyond it is an invalid global offset. Both
/// hold where the dimension's work-group size is in order.
pub proof fn lemma_address_overflow(range: RangeView, limits: LimitsView, i: int)
    requires
        1 <= range.work_dim <= limits.max_dimensions,
        0 <= i < range.work_dim,
        forall|j: int| 0 <= j < i ==> dim_error(range, limits, j) is None,
        range.local(i) <= limits.max_block_sizes[i],
        range.local(i) != 0 ==> range.global(i) % range.local(i) == 0,
        range.local(i) != 0 && limits.required_work_group_size[i] != 0 ==> range.local(i)
            == limits.required_work_group_size[i],
        range.global(i) + range.offset(i) > address_max(limits.address_bits),
    ensures
        range.global(i) > address_max(limits.address_bits) ==> geometry_error(range, limits)
            == Some(ErrorKind::InvalidGlobalWorkSize),
        range.global(i) <= address_max(limits.address_bits) ==> geometry_error(range, limits)
            == Some(ErrorKind::InvalidGlobalOffset),
{
    lemma_first_dim_error_is_least(range, limits, range.work_dim as int, i);
}


/// What queueing a launch comes to, before the backend is asked: the
/// wait-list is checked first, then the launch itself.
pub open spec fn ndrange_outcome(
    platform: &Platform,
    graph: &EventGraph,
    queue: &Queue,
    kernel: &Kernel,
    range: RangeView,
    wait_list: Seq<usize>,
) -> Result<PlanView, ErrorKind> {
    match queue.wait_list_error(graph, wait_list) {
        Some(e) => Err(e),
        None => launch_outcome(
            queue.context,
            queue.device,
            kernel,
            range,
            spec_limits(&platform.devs@[queue.device as int], kernel, queue.device),
        ),
    }
}

/// Checks the wait-list and the launch, and says what is to be done.
///
/// For a [`LaunchPlan::Dispatch`] the caller has the backend build the
/// closure and hands the outcome to [`enqueue_ndrange_kernel`]. Nothing is
/// queued and nothing changes.
pub fn prepare_ndrange_kernel(
    platform: &Platform,
    graph: &EventGraph,
    queue: &Queue,
    kernel: &Kernel,
    range: &NDRange,
    wait_list: &Vec<usize>,
) -> (r: Result<LaunchPlan, ErrorKind>)
    requires
        platform.wf(),
        queue.device < platform.devs@.len(),
        range@.wf(platform.devs@[queue.device as int].spec_max_grid_dimensions()),
    ensures
        match r {
            Ok(plan) => ndrange_outcome(platform, graph, queue, kernel, range@, wait_list@) == Ok::<
                PlanView,
                ErrorKind,
            >(plan@),
            Err(e) => ndrange_outcome(platform, graph, queue, kernel, range@, wait_list@) == Err::<
                PlanView,
                ErrorKind,
            >(e),
        },
{
    if let Err(e) = queue.check_wait_list(graph, wait_list) {
        return Err(e);
    }
    validate_launch(platform, queue, kernel, range)
}

/// Queues the launch of a kernel.
///
/// `built` is what the backend answered when asked to build the closure
/// for the launch's geometry; it is looked at only where the launch is
/// dispatched. A refused wait-list or launch is reported with its error. A
/// legal launch with an empty dimension is queued with nothing to run. Any
/// other is queued with the backend's closure, or, where the backend
/// failed, refused with the backend's error as it stands. Whatever is
/// refused leaves queue and graph as they were.
pub fn enqueue_ndrange_kernel(
    platform: &Platform,
    graph: &mut EventGraph,
    queue: &mut Queue,
    kernel: &Kernel,
    range: &NDRange,
    wait_list: &Vec<usize>,
    want_event: bool,
    built: Result<u64, ErrorKind>,
) -> (r: Result<Option<usize>, ErrorKind>)
    requires
        platform.wf(),
        old(graph).wf(),
        old(queue).wf(old(graph)),
        old(queue).device < platform.devs@.len(),
        range@.wf(platform.devs@[old(queue).device as int].spec_max_grid_dimensions()),
    ensures
        final(graph).wf(),
        final(queue).wf(final(graph)),
        terminal_kept(old(graph).events@, final(graph).events@),
        match enqueue_decision(
            ndrange_outcome(platform, old(graph), old(queue), kernel, range@, wait_list@),
            built,
        ) {
            Err(e) => {
                &&& r == Err::<Option<usize>, ErrorKind>(e)
                &&& *final(queue) == *old(queue)
                &&& *final(graph) == *old(graph)
            },
            Ok(work) => queued_command(
                old(queue),
                old(graph),
                final(queue),
                final(graph),
                r,
                CommandKind::NDRangeKernel,
                wait_list@,
                want_event,
                work,
            ),
        },
{
    let plan = match prepare_ndrange_kernel(platform, graph, queue, kernel, range, wait_list) {
        Ok(plan) => plan,
        Err(e) => {
            return Err(e);
        },
    };
    let work = match plan {
        LaunchPlan::Trivial => Work::Trivial,
        LaunchPlan::Dispatch(_) => match built {
            Ok(token) => Work::Backend(token),
            Err(e) => {
                return Err(e);
            },
        },
    };
    queue.submit(graph, CommandKind::NDRangeKernel, wait_list, want_event, work)
}

/// What a validated launch is queued with, given the backend's answer: a
/// trivial launch needs no answer; a dispatched one runs the backend's
/// closure or fails with the backend's error.
pub open spec fn enqueue_decision(outcome: Result<PlanView, ErrorKind>, built: Result<u64, ErrorKind>) -> Result<
    Work,
    ErrorKind,
> {
    match outcome {
        Err(e) => Err(e),
        Ok(PlanView::Trivial) => Ok(Work::Trivial),
        Ok(PlanView::Dispatch(_)) => match built {
            Ok(token) => Ok(Work::Backend(token)),
            Err(e) => Err(e),
        },
    }
}

/// The range of a task: one dimension, one work-item, one work-group, no offset.
pub open spec fn task_view() -> RangeView {
    RangeView {
        work_dim: 1,
        global_work_offset: None,
        global_work_size: Some(seq![1usize, 1usize, 1usize]),
        local_work_size: Some(seq![1usize, 0usize, 0usize]),
    }
}

/// Builds the range of a task.
pub fn task_range() -> (range: NDRange)
    ensures
        range@ == task_view(),
        forall|max: u32| range@.wf(max),
{
    let mut global: Vec<usize> = Vec::new();
    global.push(1);
    global.push(1);
    global.push(1);
    let mut local: Vec<usize> = Vec::new();
    local.push(1);
    local.push(0);
    local.push(0);
    assert(global@ =~= seq![1usize, 1usize, 1usize]);
    assert(local@ =~= seq![1usize, 0usize, 0usize]);
    NDRange {
        work_dim: 1,
        global_work_offset: None,
        global_work_size: Some(global),
        local_work_size: Some(local),
    }
}

/// Queues a task: the launch of a kernel over [`task_range`].
pub fn enqueue_task(
    platform: &Platform,
    graph: &mut EventGraph,
    queue: &mut Queue,
    kernel: &Kernel,
    wait_list: &Vec<usize>,
    want_event: bool,
    built: Result<u64, ErrorKind>,
) -> (r: Result<Option<usize>, ErrorKind>)
    requires
        platform.wf(),
        old(graph).wf(),
        old(queue).wf(old(graph)),
        old(queue).device < platform.devs@.len(),
    ensures
        final(graph).wf(),
        final(queue).wf(final(graph)),
        terminal_kept(old(graph).events@, final(graph).events@),
        match enqueue_decision(
            ndrange_outcome(platform, old(graph), old(queue), kernel, task_view(), wait_list@),
            built,
        ) {
            Err(e) => {
                &&& r == Err::<Option<usize>, ErrorKind>(e)
                &&& *final(queue) == *old(queue)
                &&& *final(graph) == *old(graph)
            },
            Ok(work) => queued_command(
                old(queue),
                old(graph),
                final(queue),
                final(graph),
                r,
                CommandKind::NDRangeKernel,
                wait_list@,
                want_event,
                work,
            ),
        },
{
    let range = task_range();
    enqueue_ndrange_kernel(platform, graph, queue, kernel, &range, wait_list, want_event, built)
}

/// The check of one dimension of a request for a suggestion: the global
/// size must not be zero, must fit the device's addresses, and must still
/// fit them with the offset added.
pub open spec fn size_error(range: RangeView, limits: LimitsView, i: int) -> Option<ErrorKind> {
    if range.global(i) == 0 {
        Some(ErrorKind::InvalidGlobalWorkSize)
    } else if range.global(i) > address_max(limits.address_bits) {
        Some(ErrorKind::InvalidGlobalWorkSize)
    } else if range.global(i) + range.offset(i) > address_max(limits.address_bits) {
        Some(ErrorKind::InvalidGlobalOffset)
    } else {
        None
    }
}

/// The failure of the lowest dimension below `n` that fails [`size_error`].
pub open spec fn first_size_error(range: RangeView, limits: LimitsView, n: int) -> Option<ErrorKind>
    decreases n,
{
    if n <= 0 {
        None
    } else {
        match first_size_error(range, limits, n - 1) {
            Some(e) => Some(e),
            None => size_error(range, limits, n - 1),
        }
    }
}

/// Once a dimension has failed, looking at further dimensions changes nothing.
pub proof fn lemma_first_size_error_stays(range: RangeView, limits: LimitsView, n: int, m: int)
    requires
        0 <= n <= m,
        first_size_error(range, limits, n) is Some,
    ensures
        first_size_error(range, limits, m) == first_size_error(range, limits, n),
    decreases m - n,
{
    if n < m {
        lemma_first_size_error_stays(range, limits, n, m - 1);
    }
}

/// No dimension below `n` fails exactly when `first_size_error` finds nothing.
pub proof fn lemma_no_size_error(range: RangeView, limits: LimitsView, n: int)
    requires
        0 <= n,
    ensures
        first_size_error(range, limits, n) is None <==> forall|j: int|
            0 <= j < n ==> size_error(range, limits, j) is None,
    decreases n,
{
    if n > 0 {
        lemma_no_size_error(range, limits, n - 1);
    }
}

/// What a request for a suggested work-group size comes to.
///
/// The global sizes, the offsets and the place for the answer must all be
/// given; queue and kernel must share a context, the kernel's program must
/// be built for the queue's device and every argument slot must be bound;
/// the dimensionality must be one the device accepts; then the dimensions
/// are checked in order. The work-group sizes of the request are not looked at.
pub open spec fn suggested_outcome(
    queue_context: u64,
    device: usize,
    kernel: &Kernel,
    range: RangeView,
    out_present: bool,
    limits: LimitsView,
) -> Result<Seq<usize>, ErrorKind> {
    if range.global_work_size is None {
        Err(ErrorKind::InvalidGlobalWorkSize)
    } else if range.global_work_offset is None {
        Err(ErrorKind::InvalidGlobalOffset)
    } else if !out_present {
        Err(ErrorKind::InvalidValue)
    } else if queue_context != kernel.context {
        Err(ErrorKind::InvalidContext)
    } else if kernel.spec_status(device) != BuildStatus::Success {
        Err(ErrorKind::InvalidProgramExecutable)
    } else if !kernel.all_bound() {
        Err(ErrorKind::InvalidKernelArgs)
    } else if range.work_dim == 0 || range.work_dim > limits.max_dimensions {
        Err(ErrorKind::InvalidWorkDimension)
    } else {
        match first_size_error(range, limits, range.work_dim as int) {
            Some(e) => Err(e),
            None => Ok(suggestion(range, limits, range.work_dim as int).0),
        }
    }
}

/// Suggests a work-group size for a launch of `kernel` on `queue`.
///
/// `out_present` says whether the client gave a place for the answer.
#[verifier::loop_isolation(false)]
pub fn get_kernel_suggested_local_work_size_khr(
    platform: &Platform,
    queue: &Queue,
    kernel: &Kernel,
    range: &NDRange,
    out_present: bool,
) -> (r: Result<Vec<usize>, ErrorKind>)
    requires
        platform.wf(),
        queue.device < platform.devs@.len(),
        range@.wf(platform.devs@[queue.device as int].spec_max_grid_dimensions()),
    ensures
        match r {
            Ok(block) => suggested_outcome(
                queue.context,
                queue.device,
                kernel,
                range@,
                out_present,
                spec_limits(&platform.devs@[queue.device as int], kernel, queue.device),
            ) == Ok::<Seq<usize>, ErrorKind>(block@),
            Err(e) => suggested_outcome(
                queue.context,
                queue.device,
                kernel,
                range@,
                out_present,
                spec_limits(&platform.devs@[queue.device as int], kernel, queue.device),
            ) == Err::<Seq<usize>, ErrorKind>(e),
        },
{
    if range.global_work_size.is_none() {
        return Err(ErrorKind::InvalidGlobalWorkSize);
    }
    if range.global_work_offset.is_none() {
        return Err(ErrorKind::InvalidGlobalOffset);
    }
    if !out_present {
        return Err(ErrorKind::InvalidValue);
    }
    if queue.context != kernel.context {
        return Err(ErrorKind::InvalidContext);
    }
    match kernel.status(queue.device) {
        BuildStatus::Success => {},
        _ => {
            return Err(ErrorKind::InvalidProgramExecutable);
        },
    }
    if !all_args_bound(kernel) {
        return Err(ErrorKind::InvalidKernelArgs);
    }
    let dev = &platform.devs[queue.device];
    assert(dev.wf());
    let limits = launch_limits(dev, kernel, queue.device);
    if range.work_dim == 0 || range.work_dim > limits.max_dimensions {
        return Err(ErrorKind::InvalidWorkDimension);
    }
    let device_max = device_address_max(limits.address_bits);
    let dims = range.work_dim as usize;
    let mut i: usize = 0;
    while i < dims
        invariant
            limits.wf(),
            range@.wf(limits.max_dimensions),
            1 <= range.work_dim <= limits.max_dimensions,
            dims == range.work_dim,
            device_max == address_max(limits.address_bits),
            i <= dims,
            first_size_error(range@, limits@, i as int) is None,
        decreases dims - i,
    {
        let gws = entry(&range.global_work_size, i);
        let gwo = entry(&range.global_work_offset, i);
        proof {
            if size_error(range@, limits@, i as int) is Some {
                lemma_first_size_error_stays(range@, limits@, i + 1, dims as int);
            }
        }
        if gws == 0 {
            return Err(ErrorKind::InvalidGlobalWorkSize);
        }
        if gws as u64 > device_max {
            return Err(ErrorKind::InvalidGlobalWorkSize);
        }
        match (gws as u64).checked_add(gwo as u64) {
            Some(end) => {
                if end > device_max {
                    return Err(ErrorKind::InvalidGlobalOffset);
                }
            },
            None => {
                return Err(ErrorKind::InvalidGlobalOffset);
            },
        }
        i += 1;
    }
    proof {
        lemma_no_size_error(range@, limits@, dims as int);
        assert forall|j: int| 0 <= j < dims implies range@.global(j) > 0 by {
            assert(size_error(range@, limits@, j) is None);
        }
    }
    Ok(suggest_local_size(range, &limits, dims))
}


/// The product of the work-group sizes of a range is that of their sequence.
pub proof fn lemma_local_product_is_product(range: RangeView, sizes: Seq<usize>, n: int)
    requires
        0 <= n <= sizes.len(),
        forall|i: int| 0 <= i < n ==> range.local(i) == sizes[i],
    ensures
        range.local_product(n) == product(sizes, n),
    decreases n,
{
    if n > 0 {
        lemma_local_product_is_product(range, sizes, n - 1);
    }
}

/// A launch with the suggested work-group sizes is accepted.
///
/// `range` is the request the suggestion was made for and `suggested` the
/// same request with the suggested sizes filled in. The kernel must be
/// able to run a thread at all, every dimension must admit one, and the
/// kernel must not require a work-group size of its own.
pub proof fn lemma_suggested_size_is_accepted(range: RangeView, suggested: RangeView, limits: LimitsView)
    requires
        limits.wf(),
        1 <= range.work_dim <= limits.max_dimensions,
        first_size_error(range, limits, range.work_dim as int) is None,
        limits.max_threads_per_block >= 1,
        forall|i: int|
            0 <= i < range.work_dim ==> (#[trigger] limits.max_block_sizes[i]) >= 1
                && limits.required_work_group_size[i] == 0,
        suggested.work_dim == range.work_dim,
        suggested.global_work_size == range.global_work_size,
        suggested.global_work_offset == range.global_work_offset,
        suggested.local_work_size matches Some(v) && v == suggestion(
            range,
            limits,
            range.work_dim as int,
        ).0,
    ensures
        geometry_error(suggested, limits) is None,
{
    let n = range.work_dim as int;
    let sizes = suggestion(range, limits, n).0;
    lemma_no_size_error(range, limits, n);
    assert forall|i: int| 0 <= i < n implies range.global(i) > 0 by {
        assert(size_error(range, limits, i) is None);
    }
    lemma_suggestion_is_legal(range, limits, n);
    assert forall|j: int| 0 <= j < n implies dim_error(suggested, limits, j) is None by {
        assert(size_error(range, limits, j) is None);
        assert(suggested.local(j) == sizes[j]);
        assert(suggested.global(j) == range.global(j));
        assert(suggested.offset(j) == range.offset(j));
        assert(limits.max_block_sizes[j] >= 1);
        assert(sizes[j] <= limits.max_block_sizes[j]);
    }
    lemma_no_dim_error(suggested, limits, n);
    lemma_local_product_is_product(suggested, sizes, n);
    let p = product(sizes, n);
    let left = suggestion(range, limits, n).1;
    assert(p <= limits.max_threads_per_block) by (nonlinear_arith)
        requires
            p * left <= limits.max_threads_per_block,
            left >= 1,
            p >= 1,
    ;
}

} // verus!
