//! Components used for processing data: `Scope`, the index range that a set of
//! data points covers, and `Sample`, a series of data points with its scope.
use vstd::prelude::*;

pub mod audiovisual;

verus! {

pub const FFT_SIZE: usize = 1024;

pub const NUM_TRANSFORM_OPTIONS: usize = 3;

/// The steps (transform, filter, inverse transform, ...) that a sample source
/// may run over its data. The default runs none of them.
pub trait TransformOptions<SourceType> {
    type TransformBaseType;

    fn process<F: Fn(&mut SourceType)>(&self, function_vec: Vec<F>) {
    }
}

/// A half-open index range `[start, end)` together with its length.
#[derive(Clone, Copy, Debug, PartialEq, Eq, Structural)]
pub struct Scope {
    pub start: usize,
    pub end: usize,
    pub size: usize,
}

impl Scope {
    /// A scope is well formed when it is non-empty and its size is its length.
    pub open spec fn wf(self) -> bool {
        &&& self.start < self.end
        &&& self.size == self.end - self.start
    }

    /// The scope `[init_start, init_end)`; the range must not be empty.
    pub fn new(init_start: usize, init_end: usize) -> (scope: Self)
        requires
            init_start < init_end,
        ensures
            scope.start == init_start,
            scope.end == init_end,
            scope.size == init_end - init_start,
            scope.wf(),
    {
        Scope { start: init_start, end: init_end, size: init_end - init_start }
    }
}

/// A series of data points together with the scope they fall under.
/// When no scope is given the data points are taken to cover `[0, size)`.
#[derive(Clone, Debug)]
pub struct Sample<SampleType> {
    pub data_points: Option<SampleType>,
    pub scope: Scope,
    pub size: usize,
}

/// The scope that `Sample::new` settles on: the one given, or else `[0, size)`.
pub open spec fn implied_scope(setup_scope: Option<Scope>, setup_size: Option<usize>) -> Scope {
    match setup_scope {
        Some(scope) => scope,
        None => Scope { start: 0, end: setup_size->0, size: setup_size->0 },
    }
}

/// The size that `Sample::new` settles on: the one given, or else the size of
/// the given scope.
pub open spec fn implied_size(setup_scope: Option<Scope>, setup_size: Option<usize>) -> usize {
    match setup_size {
        Some(size) => size,
        None => setup_scope->0.size,
    }
}

/// What `Sample::new` settles on is what it was given: a size given is the
/// size, a scope given is the scope; only what is missing is implied, a
/// missing size from the scope's size and a missing scope as `[0, size)`.
pub proof fn law_sample_keeps_what_is_given(setup_scope: Option<Scope>, setup_size: Option<usize>)
    ensures
        setup_size matches Some(n) ==> implied_size(setup_scope, setup_size) == n,
        setup_scope matches Some(sc) ==> implied_scope(setup_scope, setup_size) == sc,
        setup_size is None && setup_scope is Some ==> implied_size(setup_scope, setup_size)
            == setup_scope->0.size,
        setup_scope is None && setup_size is Some ==> implied_scope(setup_scope, setup_size).start == 0
            && implied_scope(setup_scope, setup_size).end == setup_size->0 && implied_scope(
            setup_scope,
            setup_size,
        ).size == setup_size->0,
{
}

impl<T> Sample<T> {
    /// Builds a sample. At least one of scope and size must be given; a size
    /// given without a scope must be positive, since it makes the scope `[0, size)`.
    pub fn new(setup_data: Option<T>, setup_scope: Option<Scope>, setup_size: Option<usize>) -> (sample: Self)
        requires
            setup_size is Some || setup_scope is Some,
            setup_scope is None ==> setup_size->0 > 0,
        ensures
            sample.data_points == setup_data,
            sample.scope == implied_scope(setup_scope, setup_size),
            sample.size == implied_size(setup_scope, setup_size),
            setup_size matches Some(n) ==> sample.size == n,
            setup_scope matches Some(sc) ==> sample.scope == sc,
            setup_size is None ==> sample.size == setup_scope->0.size,
            setup_scope is None ==> sample.scope.start == 0 && sample.scope.end == setup_size->0
                && sample.scope.size == setup_size->0,
    {
        let cfg_scope: Scope;
        let cfg_size: usize;
        match setup_scope {
            Some(scope) => {
                cfg_scope = scope;
                cfg_size = match setup_size {
                    Some(size) => size,
                    None => scope.size,
                };
            },
            None => {
                // without a scope the size is required, and it spans [0, size)
                let size = setup_size.unwrap();
                cfg_scope = Scope::new(0, size);
                cfg_size = size;
            },
        }
        Sample { data_points: setup_data, scope: cfg_scope, size: cfg_size }
    }
}

} // verus!
