//! The environment-source adapter.
//!
//! `AzureEnvironment` holds a `config::Environment` reader, forwards the
//! builder options (prefix, separator, empty-value handling) to it, and on
//! collection rewrites every key the reader produced with the array-key
//! normalizer of `crate::keys`, leaving every value untouched. The reader
//! itself and its error type belong to the `config` crate and stay opaque
//! here; its three options are tracked abstractly, through uninterpreted
//! observers that the trusted wrappers relate to the builder calls. What
//! the options mean at collection time is the reader's own affair.

use vstd::prelude::*;

use crate::keys;

verus! {

/// `config::Environment`, the external environment reader. Opaque: the
/// adapter only configures it and asks it to collect.
#[verifier::external_type_specification]
#[verifier::external_body]
pub struct ExEnvironment(config::Environment);

/// `config::Value`, the opaque payload attached to a key. The adapter
/// never inspects it.
#[verifier::external_type_specification]
#[verifier::external_body]
pub struct ExValue(config::Value);

/// `config::ConfigError`, the reader's error, surfaced to the caller
/// unchanged.
#[verifier::external_type_specification]
#[verifier::external_body]
pub struct ExConfigError(config::ConfigError);

/// The prefix option a reader holds, as text; `None` where no prefix is
/// set. Uninterpreted: only the trusted items below say how the reader's
/// builders set it.
pub uninterp spec fn reader_prefix(e: config::Environment) -> Option<Seq<char>>;

/// The separator option a reader holds, as text; `None` where none is
/// set.
pub uninterp spec fn reader_separator(e: config::Environment) -> Option<Seq<char>>;

/// Whether a reader treats empty variables as unset.
pub uninterp spec fn reader_ignore_empty(e: config::Environment) -> bool;

/// Relies on the `Clone` impl that `config` derives for `Environment`;
/// needed so the adapter itself can be cloned. The copy is field for
/// field, so the three options are preserved.
pub assume_specification[ <config::Environment as core::clone::Clone>::clone ](
    e: &config::Environment,
) -> (r: config::Environment)
    ensures
        reader_prefix(r) == reader_prefix(*e),
        reader_separator(r) == reader_separator(*e),
        reader_ignore_empty(r) == reader_ignore_empty(*e),
;

/// Relies on `config::Environment::default`: a reader with no prefix,
/// no separator, and empty values kept.
#[verifier::external_body]
fn env_default() -> (r: config::Environment)
    ensures
        reader_prefix(r) == None::<Seq<char>>,
        reader_separator(r) == None::<Seq<char>>,
        reader_ignore_empty(r) == false,
{
    config::Environment::default()
}

/// Relies on `config::Environment::with_prefix`: builds a reader that
/// keeps only variables carrying the given prefix, with the other
/// options at their defaults (no separator, empty values kept).
#[verifier::external_body]
fn env_with_prefix(s: &str) -> (r: config::Environment)
    ensures
        reader_prefix(r) == Some(s@),
        reader_separator(r) == None::<Seq<char>>,
        reader_ignore_empty(r) == false,
{
    config::Environment::with_prefix(s)
}

/// Relies on `config::Environment::prefix`: replaces the reader's prefix
/// option and keeps the other options.
#[verifier::external_body]
fn env_prefix(e: config::Environment, s: &str) -> (r: config::Environment)
    ensures
        reader_prefix(r) == Some(s@),
        reader_separator(r) == reader_separator(e),
        reader_ignore_empty(r) == reader_ignore_empty(e),
{
    e.prefix(s)
}

/// Relies on `config::Environment::separator`: sets the character
/// sequence the reader replaces by `.` when it builds key paths, and
/// keeps the other options.
#[verifier::external_body]
fn env_separator(e: config::Environment, s: &str) -> (r: config::Environment)
    ensures
        reader_separator(r) == Some(s@),
        reader_prefix(r) == reader_prefix(e),
        reader_ignore_empty(r) == reader_ignore_empty(e),
{
    e.separator(s)
}

/// Relies on `config::Environment::ignore_empty`: sets whether the
/// reader treats empty variables as unset, and keeps the other options.
#[verifier::external_body]
fn env_ignore_empty(e: config::Environment, ignore: bool) -> (r: config::Environment)
    ensures
        reader_ignore_empty(r) == ignore,
        reader_prefix(r) == reader_prefix(e),
        reader_separator(r) == reader_separator(e),
{
    e.ignore_empty(ignore)
}

/// The keys of `raw` are pairwise distinct, as text.
pub open spec fn distinct_keys(raw: Seq<(String, config::Value)>) -> bool {
    forall|a: int, b: int| 0 <= a < b < raw.len() ==> raw[a].0@ != raw[b].0@
}

/// Relies on `config::Environment::collect` (through `config::Source`):
/// reads the process environment and returns one pair per kept variable,
/// with the prefix stripped, the separator replaced by `.` and the name
/// lowercased. The pairs come out of a map, so the keys are distinct;
/// nothing more is stated, since the result depends on the state of the
/// process environment.
#[verifier::external_body]
fn env_collect(e: &config::Environment) -> (r: Result<
    Vec<(String, config::Value)>,
    config::ConfigError,
>)
    ensures
        r matches Ok(v) ==> distinct_keys(v@),
{
    match config::Source::collect(e) {
        Ok(m) => Ok(m.into_iter().collect()),
        Err(err) => Err(err),
    }
}

/// `out` is `raw` with every key rewritten by the array-key normalizer
/// and every value kept: the same number of pairs, pair by pair.
pub open spec fn normalized_from(
    raw: Seq<(String, config::Value)>,
    out: Seq<(String, config::Value)>,
) -> bool {
    &&& out.len() == raw.len()
    &&& forall|i: int| 0 <= i < raw.len() ==> #[trigger] out[i].1 == raw[i].1
    &&& forall|i: int| 0 <= i < raw.len() ==> #[trigger] out[i].0@ == keys::normalize(raw[i].0@)
}

/// Rewrites every key of a collected mapping with the array-key
/// normalizer and keeps every value and the order of the pairs.
pub fn normalize_mapping(pairs: Vec<(String, config::Value)>) -> (r: Vec<
    (String, config::Value),
>)
    ensures
        normalized_from(pairs@, r@),
{
    let ghost all = pairs@;
    let mut rest = pairs;
    let mut out: Vec<(String, config::Value)> = Vec::new();
    while rest.len() > 0
        invariant
            out@.len() + rest@.len() == all.len(),
            rest@ == all.skip(out@.len() as int),
            forall|i: int| 0 <= i < out@.len() ==> #[trigger] out@[i].1 == all[i].1,
            forall|i: int|
                0 <= i < out@.len() ==> #[trigger] out@[i].0@ == keys::normalize(all[i].0@),
        decreases rest@.len(),
    {
        let ghost done = out@.len() as int;
        let (key, value) = rest.remove(0);
        proof {
            assert(key == all[done].0);
            assert(all.skip(done).remove(0) =~= all.skip(done + 1));
        }
        let new_key = keys::normalize_key(key.as_str());
        let ghost prev_out = out@;
        out.push((new_key, value));
        proof {
            assert forall|i: int|
                0 <= i < out@.len() implies #[trigger] out@[i].0@ == keys::normalize(
                all[i].0@,
            ) by {
                if i < done {
                    assert(out@[i] == prev_out[i]);
                    assert(prev_out[i].0@ == keys::normalize(all[i].0@));
                } else {
                    assert(out@[i] == (new_key, value));
                }
            }
        }
    }
    out
}

/// The adapter: an environment reader together with the array-key
/// rewriting applied to every key it collects. Immutable once built; the
/// chainable setters return a new adapter value whose reader has the one
/// option replaced and the other options kept.
#[derive(Clone, Debug)]
pub struct AzureEnvironment {
    environment: config::Environment,
}

impl AzureEnvironment {
    /// The reader this adapter configures.
    pub closed spec fn env(self) -> config::Environment {
        self.environment
    }

    /// Wraps an already configured reader, unchanged.
    pub fn from_environment(environment: config::Environment) -> (r: Self)
        ensures
            r.env() == environment,
    {
        AzureEnvironment { environment }
    }

    /// A fresh adapter over a reader restricted to the given prefix,
    /// with the other options at the reader's defaults.
    pub fn with_prefix(s: &str) -> (r: Self)
        ensures
            reader_prefix(r.env()) == Some(s@),
            reader_separator(r.env()) == None::<Seq<char>>,
            reader_ignore_empty(r.env()) == false,
    {
        AzureEnvironment { environment: env_with_prefix(s) }
    }

    /// Replaces the reader's prefix option; the other options are kept.
    pub fn prefix(self, s: &str) -> (r: Self)
        ensures
            reader_prefix(r.env()) == Some(s@),
            reader_separator(r.env()) == reader_separator(self.env()),
            reader_ignore_empty(r.env()) == reader_ignore_empty(self.env()),
    {
        AzureEnvironment { environment: env_prefix(self.environment, s) }
    }

    /// Replaces the reader's separator option; the other options are
    /// kept.
    pub fn separator(self, s: &str) -> (r: Self)
        ensures
            reader_separator(r.env()) == Some(s@),
            reader_prefix(r.env()) == reader_prefix(self.env()),
            reader_ignore_empty(r.env()) == reader_ignore_empty(self.env()),
    {
        AzureEnvironment { environment: env_separator(self.environment, s) }
    }

    /// Replaces the reader's empty-value option; the other options are
    /// kept.
    pub fn ignore_empty(self, ignore: bool) -> (r: Self)
        ensures
            reader_ignore_empty(r.env()) == ignore,
            reader_prefix(r.env()) == reader_prefix(self.env()),
            reader_separator(r.env()) == reader_separator(self.env()),
    {
        AzureEnvironment { environment: env_ignore_empty(self.environment, ignore) }
    }

    /// Rewrites numeric path segments of one key into bracketed index
    /// form: `A.B.0` becomes `A.B[0]`.
    pub fn create_array_key(key: &str) -> (r: String)
        ensures
            r@ == keys::normalize(key@),
    {
        keys::normalize_key(key)
    }

    /// Collects the reader's mapping and rewrites every key with the
    /// array-key normalizer, keeping every value. A reader failure is
    /// surfaced unchanged; a success is some collected mapping with
    /// pairwise distinct keys, every one of them normalized, pair by
    /// pair, and every value kept.
    pub fn collect(&self) -> (r: Result<Vec<(String, config::Value)>, config::ConfigError>)
        ensures
            r matches Ok(out) ==> exists|raw: Seq<(String, config::Value)>|
                #[trigger] distinct_keys(raw) && normalized_from(raw, out@),
    {
        let ghost mut raw_view: Seq<(String, config::Value)> = Seq::empty();
        let r: Result<Vec<(String, config::Value)>, config::ConfigError> = match env_collect(
            &self.environment,
        ) {
            Ok(pairs) => {
                proof {
                    raw_view = pairs@;
                }
                Ok(normalize_mapping(pairs))
            },
            Err(err) => Err(err),
        };
        proof {
            if r is Ok {
                assert(distinct_keys(raw_view) && normalized_from(raw_view, r->Ok_0@));
            }
        }
        r
    }
}

impl Default for AzureEnvironment {
    /// An adapter over a reader at its defaults: no prefix, no
    /// separator, empty values kept.
    fn default() -> (r: Self)
        ensures
            reader_prefix(r.env()) == None::<Seq<char>>,
            reader_separator(r.env()) == None::<Seq<char>>,
            reader_ignore_empty(r.env()) == false,
    {
        AzureEnvironment { environment: env_default() }
    }
}

impl From<config::Environment> for AzureEnvironment {
    fn from(environment: config::Environment) -> Self {
        AzureEnvironment { environment }
    }
}

impl vstd::std_specs::convert::FromSpecImpl<config::Environment> for AzureEnvironment {
    open spec fn obeys_from_spec() -> bool {
        true
    }

    closed spec fn from_spec(environment: config::Environment) -> Self {
        AzureEnvironment { environment }
    }
}

/// The `From` conversion and `from_environment` are interchangeable:
/// the converted adapter wraps exactly the reader it was given.
pub proof fn lemma_from_wraps_reader(environment: config::Environment)
    ensures
        (<AzureEnvironment as vstd::std_specs::convert::FromSpec<
            config::Environment,
        >>::from_spec(environment)).env() == environment,
{
}

} // verus!
