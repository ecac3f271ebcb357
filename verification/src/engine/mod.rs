//! Search engines and the settings they share: the walk filters and how they are built.
use vstd::prelude::*;

pub mod content;
pub mod files;

verus! {

/// Walk-level filters shared by all engines.
#[derive(Debug, Clone)]
pub struct Filters {
    /// File-type names to include (e.g. "rust", "py"). Empty = all types.
    pub types: Vec<String>,
    /// Glob overrides (e.g. "!*.lock", "src/**"). Empty = none.
    pub globs: Vec<String>,
}

impl Default for Filters {
    fn default() -> (f: Self)
        ensures
            f.types@.len() == 0,
            f.globs@.len() == 0,
    {
        Filters { types: Vec::new(), globs: Vec::new() }
    }
}

// ---------------------------------------------------------------------------
// Building the walk's type and glob filters (the `ignore` crate)
// ---------------------------------------------------------------------------

#[verifier::external_type_specification]
#[verifier::external_body]
pub struct ExTypesBuilder(ignore::types::TypesBuilder);

#[verifier::external_type_specification]
#[verifier::external_body]
pub struct ExTypes(ignore::types::Types);

#[verifier::external_type_specification]
#[verifier::external_body]
pub struct ExOverrideBuilder(ignore::overrides::OverrideBuilder);

#[verifier::external_type_specification]
#[verifier::external_body]
pub struct ExOverride(ignore::overrides::Override);

/// The type names a types builder holds as selections, in order.
pub uninterp spec fn type_selections(b: ignore::types::TypesBuilder) -> Seq<Seq<char>>;

/// The type names a types builder has definitions for.
pub uninterp spec fn defined_types(b: ignore::types::TypesBuilder) -> Set<Seq<char>>;

/// Whether `ignore`'s table of default file types (`DEFAULT_TYPES`) defines `name`.
pub uninterp spec fn is_default_type(name: Seq<char>) -> bool;

/// `TypesBuilder::new`: no definitions and no selections.
#[verifier::external_body]
fn new_types_builder() -> (b: ignore::types::TypesBuilder)
    ensures
        type_selections(b) == Seq::<Seq<char>>::empty(),
        defined_types(b) == Set::<Seq<char>>::empty(),
{
    ignore::types::TypesBuilder::new()
}

/// `TypesBuilder::add_defaults`: adds the default table's definitions (it never
/// fails on them) and leaves the selections alone.
#[verifier::external_body]
fn add_default_types(b: &mut ignore::types::TypesBuilder)
    ensures
        type_selections(*final(b)) == type_selections(*old(b)),
        defined_types(*final(b)) == defined_types(*old(b)).union(Set::new(|n: Seq<char>| is_default_type(n))),
{
    b.add_defaults();
}

/// `TypesBuilder::select`: selects `name`, or, for `all`, every type defined so far
/// (in the order of the definitions' hash map, which is not stated).
#[verifier::external_body]
fn select_type(b: &mut ignore::types::TypesBuilder, name: &str)
    ensures
        defined_types(*final(b)) == defined_types(*old(b)),
        name@ != "all"@ ==> type_selections(*final(b)) == type_selections(*old(b)).push(name@),
        name@ == "all"@ ==> exists|s: Seq<Seq<char>>|
            #![trigger type_selections(*old(b)) + s]
            type_selections(*final(b)) == type_selections(*old(b)) + s && s.to_set()
                == defined_types(*old(b)),
{
    b.select(name);
}

/// `TypesBuilder::build`: fails (with `unrecognized file type: <name>`) when a
/// selection names no defined type. It can also fail on a definition's glob, so
/// success is not promised when every selection is defined; its error text is then
/// not stated.
#[verifier::external_body]
fn build_types(b: &ignore::types::TypesBuilder) -> (r: Result<ignore::types::Types, String>)
    ensures
        r is Ok ==> forall|i: int|
            0 <= i < type_selections(*b).len() ==> defined_types(*b).contains(
                #[trigger] type_selections(*b)[i],
            ),
        (exists|i: int|
            0 <= i < type_selections(*b).len() && !defined_types(*b).contains(
                #[trigger] type_selections(*b)[i],
            )) ==> r is Err,
{
    match b.build() {
        Ok(t) => Ok(t),
        Err(e) => Err(e.to_string()),
    }
}

/// Whether an override builder still has the settings `OverrideBuilder::new` gives
/// (case-sensitive globs, unclosed character classes refused).
pub uninterp spec fn override_settings_plain(b: ignore::overrides::OverrideBuilder) -> bool;

/// The error `OverrideBuilder::add` reports for `glob` on a builder with the plain
/// settings (`error parsing glob '<glob>': ...`), or `None` when it is accepted.
/// Comment and blank lines are accepted and ignored.
pub uninterp spec fn override_line_error(glob: Seq<char>) -> Option<Seq<char>>;

/// `OverrideBuilder::new(root)`: globs matched relative to `root`.
#[verifier::external_body]
fn new_override_builder(root: &str) -> (b: ignore::overrides::OverrideBuilder)
    ensures
        override_settings_plain(b),
{
    ignore::overrides::OverrideBuilder::new(root)
}

/// `OverrideBuilder::add`: parses `glob` as one gitignore-style line; the outcome
/// depends on the glob and the builder's settings alone.
#[verifier::external_body]
fn add_override(b: &mut ignore::overrides::OverrideBuilder, glob: &str) -> (r: Option<String>)
    requires
        override_settings_plain(*old(b)),
    ensures
        override_settings_plain(*final(b)),
        match r {
            Some(e) => override_line_error(glob@) == Some(e@) && e@.len() > 0,
            None => override_line_error(glob@) is None,
        },
{
    match b.add(glob) {
        Ok(_) => None,
        Err(e) => Some(e.to_string()),
    }
}

/// `OverrideBuilder::build`. Its outcome (a glob set that fails to compile) is not
/// stated.
#[verifier::external_body]
fn build_override(b: &ignore::overrides::OverrideBuilder) -> (r: Result<
    ignore::overrides::Override,
    String,
>) {
    match b.build() {
        Ok(o) => Ok(o),
        Err(e) => Err(e.to_string()),
    }
}

/// What is known of the outcome of building the filters for (`types`, `globs`):
/// `None` (built) only when every type is `all` or a default type and every glob
/// line is accepted; an error whenever a type is unknown or a glob line is refused.
pub open spec fn filters_outcome(types: Seq<Seq<char>>, globs: Seq<Seq<char>>, error: Option<Seq<char>>) -> bool {
    &&& error is None ==> (forall|i: int| 0 <= i < types.len() ==> (#[trigger] types[i]) == "all"@
        || is_default_type(types[i]))
    &&& error is None ==> (forall|i: int| 0 <= i < globs.len() ==> override_line_error(#[trigger] globs[i]) is None)
    &&& (exists|i: int| 0 <= i < types.len() && (#[trigger] types[i]) != "all"@ && !is_default_type(types[i]))
        ==> error is Some
    &&& (exists|i: int| 0 <= i < globs.len() && override_line_error(#[trigger] globs[i]) is Some) ==> error is Some
}

pub open spec fn strings_of(v: Seq<String>) -> Seq<Seq<char>> {
    v.map_values(|s: String| s@)
}

/// Builds the walk's file-type matcher (the default types, with the given ones
/// selected) and its glob overrides (relative to `root`), or the first error.
pub fn build_filters(root: &str, filters: &Filters) -> (r: Result<
    (ignore::types::Types, ignore::overrides::Override),
    String,
>)
    ensures
        filters_outcome(
            strings_of(filters.types@),
            strings_of(filters.globs@),
            match r {
                Ok(_) => None,
                Err(e) => Some(e@),
            },
        ),
{
    let ghost types = strings_of(filters.types@);
    let ghost globs = strings_of(filters.globs@);
    let mut tb = new_types_builder();
    add_default_types(&mut tb);
    let ghost defaults = Set::new(|n: Seq<char>| is_default_type(n));
    assert(defined_types(tb) =~= defaults);
    let mut k: usize = 0;
    while k < filters.types.len()
        invariant
            k <= filters.types.len(),
            types == strings_of(filters.types@),
            defined_types(tb) == defaults,
            defaults == Set::new(|n: Seq<char>| is_default_type(n)),
            forall|j: int| 0 <= j < k && (#[trigger] types[j]) != "all"@ ==> type_selections(tb).contains(types[j]),
        decreases filters.types.len() - k,
    {
        let ghost before = type_selections(tb);
        select_type(&mut tb, filters.types[k].as_str());
        proof {
            let t = types[k as int];
            assert(t == filters.types@[k as int]@);
            if t != "all"@ {
                assert(type_selections(tb) == before.push(t));
                assert(type_selections(tb)[before.len() as int] == t);
                assert forall|j: int| 0 <= j < k + 1 && (#[trigger] types[j]) != "all"@ implies type_selections(tb).contains(types[j]) by {
                    if j < k {
                        let m = choose|m: int| 0 <= m < before.len() && before[m] == types[j];
                        assert(type_selections(tb)[m] == types[j]);
                    } else {
                        assert(type_selections(tb)[before.len() as int] == types[j]);
                    }
                }
            } else {
                let s = choose|s: Seq<Seq<char>>|
                    #![trigger before + s]
                    type_selections(tb) == before + s && s.to_set() == defaults;
                assert(type_selections(tb) == before + s);
                assert forall|j: int| 0 <= j < k + 1 && (#[trigger] types[j]) != "all"@ implies type_selections(tb).contains(types[j]) by {
                    let m = choose|m: int| 0 <= m < before.len() && before[m] == types[j];
                    assert(type_selections(tb)[m] == types[j]);
                }
            }
        }
        k += 1;
    }
    let types_built = match build_types(&tb) {
        Ok(t) => t,
        Err(e) => {
            return Err(e);
        },
    };
    proof {
        assert forall|i: int| 0 <= i < types.len() implies (#[trigger] types[i]) == "all"@ || is_default_type(types[i]) by {
            if types[i] != "all"@ {
                let m = choose|m: int| 0 <= m < type_selections(tb).len() && type_selections(tb)[m] == types[i];
                assert(defined_types(tb).contains(type_selections(tb)[m]));
            }
        }
    }
    let mut ob = new_override_builder(root);
    let mut g: usize = 0;
    while g < filters.globs.len()
        invariant
            g <= filters.globs.len(),
            globs == strings_of(filters.globs@),
            override_settings_plain(ob),
            forall|j: int| 0 <= j < g ==> override_line_error(#[trigger] globs[j]) is None,
        decreases filters.globs.len() - g,
    {
        match add_override(&mut ob, filters.globs[g].as_str()) {
            Some(e) => {
                assert(override_line_error(globs[g as int]) == Some(e@));
                return Err(e);
            },
            None => {},
        }
        assert(override_line_error(globs[g as int]) is None);
        g += 1;
    }
    match build_override(&ob) {
        Ok(o) => Ok((types_built, o)),
        Err(e) => Err(e),
    }
}

} // verus!
