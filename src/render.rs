//! The whole pipeline: classify `1..=width*height`, color each outcome, encode.
use vstd::prelude::*;
use crate::bitmap::{BitmapError, encode_bitmap, encode_outcome};
use crate::classify::{PoolError, indexed_outcomes, parallel_outcomes, sequential_matches_parallel, single_thread_prime, worker_pool};
use crate::pixels::{Color, map_pixels, pixels_of};
use crate::primality::Variant;
use vstd::string::{StrSliceExecFns, StringExecFns};

verus! {

/// How primality is computed: which test, and whether on a pool of workers.
#[derive(Clone, Copy, Debug, PartialEq, Eq, Structural)]
pub enum Method {
    OptimizedParallel,
    NaiveParallel,
    OptimizedSequential,
    NaiveSequential,
}

impl Method {
    /// The trial-division test that this method runs.
    pub open spec fn spec_variant(self) -> Variant {
        match self {
            Method::OptimizedParallel | Method::OptimizedSequential => Variant::Optimized,
            Method::NaiveParallel | Method::NaiveSequential => Variant::Naive,
        }
    }

    /// Whether this method runs on a pool of workers.
    pub open spec fn spec_is_parallel(self) -> bool {
        self == Method::OptimizedParallel || self == Method::NaiveParallel
    }

    /// The trial-division test that this method runs.
    pub fn variant(&self) -> (r: Variant)
        ensures
            r == self.spec_variant(),
    {
        match self {
            Method::OptimizedParallel | Method::OptimizedSequential => Variant::Optimized,
            Method::NaiveParallel | Method::NaiveSequential => Variant::Naive,
        }
    }

    /// Whether this method runs on a pool of workers.
    pub fn is_parallel(&self) -> (r: bool)
        ensures
            r == self.spec_is_parallel(),
    {
        match self {
            Method::OptimizedParallel | Method::NaiveParallel => true,
            _ => false,
        }
    }

    /// The method numbered as on the command line: 2 is naive on a pool, 3 optimized
    /// on one thread, 4 naive on one thread, and any other number optimized on a pool.
    pub fn from_code(code: u8) -> (m: Method)
        ensures
            m == (if code == 2 {
                Method::NaiveParallel
            } else if code == 3 {
                Method::OptimizedSequential
            } else if code == 4 {
                Method::NaiveSequential
            } else {
                Method::OptimizedParallel
            }),
    {
        if code == 2 {
            Method::NaiveParallel
        } else if code == 3 {
            Method::OptimizedSequential
        } else if code == 4 {
            Method::NaiveSequential
        } else {
            Method::OptimizedParallel
        }
    }
}

/// Why no image was produced.
#[derive(Clone, Copy, Debug, PartialEq, Eq, Structural)]
pub enum RenderError {
    /// `width * height` does not fit in 32 bits.
    TooManyPixels,
    /// The pool of workers could not be had.
    Pool(PoolError),
    /// The pixels could not be encoded.
    Bitmap(BitmapError),
}

/// The pixels of a `width` by `height` image of the primality of `1..=width*height`.
pub open spec fn prime_pixels(
    width: int,
    height: int,
    prime_color: Color,
    composite_color: Color,
    v: Variant,
) -> Seq<Color> {
    pixels_of(indexed_outcomes((width * height) as nat, v), prime_color, composite_color)
}

/// What rendering gives once a pool, where one is needed, has been had.
pub open spec fn render_outcome(
    width: int,
    height: int,
    prime_color: Color,
    composite_color: Color,
    method: Method,
) -> Result<Seq<u8>, RenderError> {
    if width * height > u32::MAX {
        Err(RenderError::TooManyPixels)
    } else {
        match encode_outcome(
            prime_pixels(width, height, prime_color, composite_color, method.spec_variant()),
            width,
            height,
        ) {
            Ok(bytes) => Ok(bytes),
            Err(e) => Err(RenderError::Bitmap(e)),
        }
    }
}

/// The view of a rendering result.
pub open spec fn render_view(r: Result<Vec<u8>, RenderError>) -> Result<Seq<u8>, RenderError> {
    match r {
        Ok(v) => Ok(v@),
        Err(e) => Err(e),
    }
}

/// Produces the bitmap file of a `width` by `height` image in which pixel `i`, in
/// row-major order, has `prime_color` if `i + 1` is prime and `composite_color`
/// if not. A parallel method runs on a pool of `workers` threads.
pub fn prime_bitmap(
    width: u32,
    height: u32,
    prime_color: Color,
    composite_color: Color,
    method: Method,
    workers: usize,
) -> (r: Result<Vec<u8>, RenderError>)
    ensures
        (width as int) * (height as int) <= u32::MAX && method.spec_is_parallel() && workers == 0
            <==> r == Err::<Vec<u8>, RenderError>(RenderError::Pool(PoolError::NoWorkers)),
        r == Err::<Vec<u8>, RenderError>(RenderError::Pool(PoolError::BuildFailed)) ==> (
        width as int) * (height as int) <= u32::MAX && method.spec_is_parallel() && workers > 0,
        !(r is Err && r->Err_0 is Pool) ==> render_view(r) == render_outcome(
            width as int,
            height as int,
            prime_color,
            composite_color,
            method,
        ),
{
    assert((width as u64) * (height as u64) <= u64::MAX) by (nonlinear_arith)
        requires
            width <= u32::MAX,
            height <= u32::MAX,
    ;
    if (width as u64) * (height as u64) > u32::MAX as u64 {
        return Err(RenderError::TooManyPixels);
    }
    let num: u32 = width * height;
    let variant = method.variant();
    let outcomes = if method.is_parallel() {
        let pool = match worker_pool(workers) {
            Ok(p) => p,
            Err(e) => {
                return Err(RenderError::Pool(e));
            },
        };
        parallel_outcomes(num, variant, &pool)
    } else {
        proof {
            sequential_matches_parallel(num as nat, variant);
        }
        single_thread_prime(num, variant)
    };
    let image = map_pixels(&outcomes, prime_color, composite_color);
    match encode_bitmap(&image, width, height) {
        Ok(bytes) => Ok(bytes),
        Err(e) => Err(RenderError::Bitmap(e)),
    }
}

/// The extension that every output file name ends with.
pub open spec fn bmp_suffix() -> Seq<char> {
    seq!['.', 'b', 'm', 'p']
}

/// `s` is longer than four characters and ends with ".bmp".
pub open spec fn has_bmp_suffix(s: Seq<char>) -> bool {
    s.len() > 4 && s.subrange(s.len() - 4, s.len() as int) == bmp_suffix()
}

/// The output file name: `name` itself where it is longer than four characters
/// and ends with ".bmp", else `name` with ".bmp" appended.
pub fn bmp_file_name(name: &str) -> (r: String)
    ensures
        r@ == (if has_bmp_suffix(name@) {
            name@
        } else {
            name@ + bmp_suffix()
        }),
{
    let n = name.unicode_len();
    if n > 4 && name.get_char(n - 4) == '.' && name.get_char(n - 3) == 'b' && name.get_char(n - 2)
        == 'm' && name.get_char(n - 1) == 'p' {
        assert(name@.subrange(n - 4, n as int) =~= bmp_suffix());
        return String::from_str(name);
    }
    assert(!has_bmp_suffix(name@)) by {
        if has_bmp_suffix(name@) {
            assert(name@.subrange(n - 4, n as int)[0] == name@[n - 4]);
            assert(name@.subrange(n - 4, n as int)[1] == name@[n - 3]);
            assert(name@.subrange(n - 4, n as int)[2] == name@[n - 2]);
            assert(name@.subrange(n - 4, n as int)[3] == name@[n - 1]);
        }
    }
    let mut r = String::from_str(name);
    proof {
        reveal_strlit(".bmp");
    }
    r.append(".bmp");
    assert(".bmp"@ =~= bmp_suffix());
    r
}

} // verus!
