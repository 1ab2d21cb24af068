//! Parsing of the `-e` arguments that give a task its environment variables.
//!
//! An argument of the form `KEY=VALUE` sets `KEY` to `VALUE` (the first `=` separates them).
//! An argument `KEY` takes the value of `KEY` in the current process' environment, and is
//! skipped when the process has no such variable. This is the behaviour of `docker run`.

use crate::error::Error;
use vstd::prelude::*;

verus! {

/// What looking a variable up in the process' environment gives.
pub enum EnvLookup {
    /// The variable is set, to this value.
    Value(String),
    /// The variable is not set.
    NotPresent,
    /// The variable is set, but its value is not valid Unicode.
    NotUnicode,
}

/// The position of the first `=` in a text, if it has one.
pub open spec fn first_equals(text: Seq<char>) -> Option<int> {
    if exists|i: int| 0 <= i < text.len() && text[i] == '=' {
        Some(
            choose|i: int|
                0 <= i < text.len() && text[i] == '=' && forall|j: int| 0 <= j < i ==> text[j] != '=',
        )
    } else {
        None
    }
}

/// The key and the value of an argument of the form `KEY=VALUE`, split at the first `=`.
pub open spec fn split_at_equals(text: Seq<char>) -> Option<(Seq<char>, Seq<char>)> {
    match first_equals(text) {
        Some(i) => Some((text.take(i), text.skip(i + 1))),
        None => None,
    }
}

/// The entry that one argument gives, where `lookup` is what the environment holds for it
/// (consulted only when the argument has no `=`): a key and a value, nothing, or the error
/// naming the variable.
pub open spec fn arg_entry(arg: Seq<char>, lookup: EnvLookup) -> Result<Option<(Seq<char>, Seq<char>)>, Seq<char>> {
    match split_at_equals(arg) {
        Some(kv) => Ok(Some(kv)),
        None => match lookup {
            EnvLookup::Value(v) => Ok(Some((arg, v@))),
            EnvLookup::NotPresent => Ok(None),
            EnvLookup::NotUnicode => Err(arg),
        },
    }
}

/// What one argument gives, stated on its characters: an argument with an `=` gives the text
/// before its first `=` as the key and all the text after it as the value; an argument without
/// one gives itself as the key with the looked-up value unchanged, nothing when the variable is
/// not set, and the error naming it when its value is not Unicode.
pub proof fn lemma_arg_entry(arg: Seq<char>, lookup: EnvLookup)
    ensures
        forall|i: int|
            0 <= i < arg.len() && arg[i] == '=' && (forall|j: int| 0 <= j < i ==> arg[j] != '=') ==> arg_entry(
                arg,
                lookup,
            ) == Ok::<Option<(Seq<char>, Seq<char>)>, Seq<char>>(Some((arg.take(i), arg.skip(i + 1)))),
        (forall|i: int| 0 <= i < arg.len() ==> arg[i] != '=') ==> arg_entry(arg, lookup) == match lookup {
            EnvLookup::Value(v) => Ok::<Option<(Seq<char>, Seq<char>)>, Seq<char>>(Some((arg, v@))),
            EnvLookup::NotPresent => Ok(None),
            EnvLookup::NotUnicode => Err(arg),
        },
{
    assert forall|i: int|
        0 <= i < arg.len() && arg[i] == '=' && (forall|j: int| 0 <= j < i ==> arg[j] != '=') implies arg_entry(
            arg,
            lookup,
        ) == Ok::<Option<(Seq<char>, Seq<char>)>, Seq<char>>(Some((arg.take(i), arg.skip(i + 1)))) by {
        let k = choose|k: int|
            0 <= k < arg.len() && arg[k] == '=' && forall|j: int| 0 <= j < k ==> arg[j] != '=';
        assert(k == i) by {
            if k < i {
                assert(arg[k] != '=');
            } else if k > i {
                assert(arg[i] != '=');
            }
        }
    }
}

/// The entries that a list of arguments gives, in order, or the error of the first argument
/// that fails; `lookups[i]` is what the environment holds for `args[i]`.
pub open spec fn environment_entries(args: Seq<Seq<char>>, lookups: Seq<EnvLookup>) -> Result<Seq<(Seq<char>, Seq<char>)>, Seq<char>>
    decreases args.len(),
{
    if args.len() == 0 {
        Ok(Seq::empty())
    } else {
        match environment_entries(args.drop_last(), lookups.drop_last()) {
            Err(name) => Err(name),
            Ok(prev) => match arg_entry(args.last(), lookups.last()) {
                Err(name) => Err(name),
                Ok(None) => Ok(prev),
                Ok(Some(kv)) => Ok(prev.push(kv)),
            },
        }
    }
}

/// Parsing one more argument extends the entries of the arguments before it.
proof fn lemma_entries_push(texts: Seq<Seq<char>>, lookups: Seq<EnvLookup>, i: int, lookup: EnvLookup)
    requires
        0 <= i < texts.len(),
        lookups.len() == i,
    ensures
        environment_entries(texts.take(i + 1), lookups.push(lookup)) == match environment_entries(
            texts.take(i),
            lookups,
        ) {
            Err(name) => Err(name),
            Ok(prev) => match arg_entry(texts[i], lookup) {
                Err(name) => Err(name),
                Ok(None) => Ok(prev),
                Ok(Some(kv)) => Ok(prev.push(kv)),
            },
        },
{
    assert(texts.take(i + 1).drop_last() =~= texts.take(i));
    assert(lookups.push(lookup).drop_last() =~= lookups);
    assert(texts.take(i + 1).last() == texts[i]);
}

/// The environment that a list of key-value pairs sets: each pair in turn, so that a later
/// pair for a key replaces an earlier one.
pub open spec fn environment_map(pairs: Seq<(Seq<char>, Seq<char>)>) -> Map<Seq<char>, Seq<char>>
    decreases pairs.len(),
{
    if pairs.len() == 0 {
        Map::empty()
    } else {
        environment_map(pairs.drop_last()).insert(pairs.last().0, pairs.last().1)
    }
}

/// In the environment that a list of pairs sets, a key is present exactly when some pair
/// names it.
pub proof fn lemma_environment_keys(pairs: Seq<(Seq<char>, Seq<char>)>, key: Seq<char>)
    ensures
        environment_map(pairs).contains_key(key) <==> exists|i: int| 0 <= i < pairs.len() && #[trigger] pairs[i].0 == key,
    decreases pairs.len(),
{
    if pairs.len() > 0 {
        let prev = pairs.drop_last();
        lemma_environment_keys(prev, key);
        if exists|i: int| 0 <= i < prev.len() && #[trigger] prev[i].0 == key {
            let i = choose|i: int| 0 <= i < prev.len() && #[trigger] prev[i].0 == key;
            assert(pairs[i].0 == key);
        }
        if exists|i: int| 0 <= i < pairs.len() && #[trigger] pairs[i].0 == key {
            let i = choose|i: int| 0 <= i < pairs.len() && #[trigger] pairs[i].0 == key;
            if i < pairs.len() - 1 {
                assert(prev[i].0 == key);
            }
        }
    }
}

/// A later key wins: the value of a key is that of the last pair naming it.
pub proof fn lemma_later_key_wins(pairs: Seq<(Seq<char>, Seq<char>)>, key: Seq<char>, i: int)
    requires
        0 <= i < pairs.len(),
        pairs[i].0 == key,
        forall|j: int| i < j < pairs.len() ==> #[trigger] pairs[j].0 != key,
    ensures
        environment_map(pairs).contains_key(key),
        environment_map(pairs)[key] == pairs[i].1,
    decreases pairs.len(),
{
    let n = pairs.len() - 1;
    if i < n {
        let prev = pairs.drop_last();
        assert(pairs[n].0 != key);
        assert(prev[i].0 == key);
        assert forall|j: int| i < j < prev.len() implies #[trigger] prev[j].0 != key by {
            assert(pairs[j].0 != key);
        }
        lemma_later_key_wins(prev, key, i);
    }
}

/// The result of parsing one argument, as texts.
pub open spec fn entry_view(r: Result<Option<(String, String)>, Error>) -> Result<Option<(Seq<char>, Seq<char>)>, Seq<char>> {
    match r {
        Ok(Some(kv)) => Ok(Some((kv.0@, kv.1@))),
        Ok(None) => Ok(None),
        Err(Error::InvalidEnvironmentVariable(name)) => Err(name@),
        Err(_) => Err(Seq::empty()),
    }
}

/// Key-value pairs as texts.
pub open spec fn pairs_view(pairs: Seq<(String, String)>) -> Seq<(Seq<char>, Seq<char>)> {
    pairs.map_values(|kv: (String, String)| (kv.0@, kv.1@))
}

/// Arguments as texts.
pub open spec fn texts_of(args: Seq<&str>) -> Seq<Seq<char>> {
    args.map_values(|a: &str| a@)
}

/// The position of the first `=` in `text`, if it has one.
fn find_equals(text: &str) -> (pos: Option<usize>)
    ensures
        match pos {
            Some(i) => {
                &&& i < text@.len()
                &&& first_equals(text@) == Some(i as int)
                &&& text@[i as int] == '='
                &&& forall|j: int| 0 <= j < i ==> text@[j] != '='
            },
            None => {
                &&& first_equals(text@) is None
                &&& forall|j: int| 0 <= j < text@.len() ==> text@[j] != '='
            },
        },
{
    let n = text.unicode_len();
    let mut i: usize = 0;
    while i < n
        invariant
            n == text@.len(),
            i <= n,
            forall|j: int| 0 <= j < i ==> text@[j] != '=',
        decreases n - i,
    {
        if text.get_char(i) == '=' {
            assert(text@[i as int] == '=');
            let ghost k = choose|k: int|
                0 <= k < text@.len() && text@[k] == '=' && forall|j: int| 0 <= j < k ==> text@[j] != '=';
            assert(k == i) by {
                if k < i {
                    assert(text@[k] != '=');
                } else if k > i {
                    assert(text@[i as int] != '=');
                }
            }
            return Some(i);
        }
        i = i + 1;
    }
    None
}

/// The entry of a variable named `name`, given what the environment holds for it.
pub fn lookup_entry(name: &str, lookup: EnvLookup) -> (r: Result<Option<(String, String)>, Error>)
    ensures
        lookup matches EnvLookup::Value(v) ==> (r matches Ok(Some(kv)) && kv.0@ == name@ && kv.1 == v),
        r is Err ==> r->Err_0 is InvalidEnvironmentVariable,
        entry_view(r) == match lookup {
            EnvLookup::Value(v) => Ok(Some((name@, v@))),
            EnvLookup::NotPresent => Ok(None),
            EnvLookup::NotUnicode => Err(name@),
        },
{
    match lookup {
        EnvLookup::Value(value) => Ok(Some((name.to_owned(), value))),
        EnvLookup::NotPresent => Ok(None),
        EnvLookup::NotUnicode => Err(Error::InvalidEnvironmentVariable(name.to_owned())),
    }
}

/// What parsing one argument gives, stated on its characters: with an `=`, the text before the
/// first `=` is the key and all the text after it the value; without one, the argument itself
/// is the key and the value is exactly what `getenv` gave for it, unchanged; nothing is given
/// only when `getenv` found no such variable, and the error names the argument only when
/// `getenv` found its value not to be Unicode.
#[verifier::opaque]
pub open spec fn argument_parsed<E: Fn(&str) -> EnvLookup>(arg: &str, getenv: &E, r: Result<Option<(String, String)>, Error>) -> bool {
    &&& forall|i: int|
        0 <= i < arg@.len() && arg@[i] == '=' && (forall|j: int| 0 <= j < i ==> arg@[j] != '=') ==> (
        r matches Ok(Some(kv)) && kv.0@ == arg@.take(i) && kv.1@ == arg@.skip(i + 1))
    &&& (forall|i: int| 0 <= i < arg@.len() ==> arg@[i] != '=') ==> {
        &&& r matches Ok(Some(kv)) ==> kv.0@ == arg@ && getenv.ensures((arg,), EnvLookup::Value(kv.1))
        &&& r is Ok && r->Ok_0 is None ==> getenv.ensures((arg,), EnvLookup::NotPresent)
        &&& r matches Err(e) ==> getenv.ensures((arg,), EnvLookup::NotUnicode) && (e matches Error::InvalidEnvironmentVariable(
            name,
        ) && name@ == arg@)
    }
}

/// Parse an argument given to the `-e` flag into an optional key-value pair:
/// - `KEY=VALUE` gives `(KEY, VALUE)`;
/// - `KEY` gives `(KEY, value)` when `getenv` finds the variable, and nothing when it does not;
/// - `KEY` fails when the variable's value is not valid Unicode.
///
/// `getenv` is only called for an argument without `=`.
pub fn parse_environment_arg<E: Fn(&str) -> EnvLookup>(arg: &str, getenv: &E) -> (r: Result<Option<(String, String)>, Error>)
    requires
        forall|name: &str| getenv.requires((name,)),
    ensures
        r is Err ==> r->Err_0 is InvalidEnvironmentVariable,
        argument_parsed(arg, getenv, r),
        exists|lookup: EnvLookup|
            {
                &&& (split_at_equals(arg@) is None ==> getenv.ensures((arg,), lookup))
                &&& entry_view(r) == arg_entry(arg@, lookup)
            },
{
    match find_equals(arg) {
        Some(i) => {
            let n = arg.unicode_len();
            let key = arg.substring_char(0, i).to_owned();
            let value = arg.substring_char(i + 1, n).to_owned();
            let r = Ok(Some((key, value)));
            assert(entry_view(r) == arg_entry(arg@, EnvLookup::NotPresent));
            proof {
                reveal(argument_parsed);
                assert(arg@[i as int] == '=');
                assert forall|k: int|
                    0 <= k < arg@.len() && arg@[k] == '=' && (forall|j: int| 0 <= j < k ==> arg@[j] != '=') implies k == i by {
                    if k < i {
                        assert(arg@[k] != '=');
                    } else if k > i {
                        assert(arg@[i as int] != '=');
                    }
                }
            }
            r
        },
        None => {
            let lookup = getenv(arg);
            let ghost seen = lookup;
            let r = lookup_entry(arg, lookup);
            assert(entry_view(r) == arg_entry(arg@, seen));
            proof {
                reveal(argument_parsed);
            }
            r
        },
    }
}

/// No two pairs share a key.
pub open spec fn keys_unique(pairs: Seq<(Seq<char>, Seq<char>)>) -> bool {
    forall|i: int, j: int|
        0 <= i < pairs.len() && 0 <= j < pairs.len() && #[trigger] pairs[i].0 == #[trigger] pairs[j].0
            ==> i == j
}

/// The environment that a parse result sets, or the name of the variable that failed.
pub open spec fn environment_result(entries: Result<Seq<(Seq<char>, Seq<char>)>, Seq<char>>) -> Result<Map<Seq<char>, Seq<char>>, Seq<char>> {
    match entries {
        Ok(pairs) => Ok(environment_map(pairs)),
        Err(name) => Err(name),
    }
}

/// The environment that a result of `parse_environment` holds, as texts.
pub open spec fn environment_view(r: Result<Vec<(String, String)>, Error>) -> Result<Map<Seq<char>, Seq<char>>, Seq<char>> {
    match r {
        Ok(v) => Ok(environment_map(pairs_view(v@))),
        Err(Error::InvalidEnvironmentVariable(name)) => Err(name@),
        Err(_) => Err(Seq::empty()),
    }
}

/// With unique keys, the environment holds exactly the keys of the pairs, each with its
/// pair's value.
proof fn lemma_unique_map(pairs: Seq<(Seq<char>, Seq<char>)>)
    requires
        keys_unique(pairs),
    ensures
        forall|k: Seq<char>|
            #[trigger] environment_map(pairs).contains_key(k) <==> exists|i: int|
                0 <= i < pairs.len() && #[trigger] pairs[i].0 == k,
        forall|i: int| 0 <= i < pairs.len() ==> environment_map(pairs)[#[trigger] pairs[i].0] == pairs[i].1,
{
    assert forall|k: Seq<char>|
        #[trigger] environment_map(pairs).contains_key(k) <==> exists|i: int|
            0 <= i < pairs.len() && #[trigger] pairs[i].0 == k by {
        lemma_environment_keys(pairs, k);
    }
    assert forall|i: int| 0 <= i < pairs.len() implies environment_map(pairs)[#[trigger] pairs[i].0]
        == pairs[i].1 by {
        assert forall|j: int| i < j < pairs.len() implies #[trigger] pairs[j].0 != pairs[i].0 by {
            if pairs[j].0 == pairs[i].0 {
                assert(i == j);
            }
        }
        lemma_later_key_wins(pairs, pairs[i].0, i);
    }
}

/// Dropping the pair of a key from pairs with unique keys drops the key from the environment.
proof fn lemma_remove_key(pairs: Seq<(Seq<char>, Seq<char>)>, j: int)
    requires
        keys_unique(pairs),
        0 <= j < pairs.len(),
    ensures
        keys_unique(pairs.remove(j)),
        environment_map(pairs.remove(j)) == environment_map(pairs).remove(pairs[j].0),
{
    let q = pairs.remove(j);
    let k = pairs[j].0;
    assert forall|a: int, b: int|
        0 <= a < q.len() && 0 <= b < q.len() && #[trigger] q[a].0 == #[trigger] q[b].0 implies a == b by {
        let a2 = if a < j { a } else { a + 1 };
        let b2 = if b < j { b } else { b + 1 };
        assert(pairs[a2].0 == pairs[b2].0);
    }
    lemma_unique_map(pairs);
    lemma_unique_map(q);
    let m = environment_map(q);
    let e = environment_map(pairs).remove(k);
    assert forall|x: Seq<char>| #[trigger] m.contains_key(x) <==> e.contains_key(x) by {
        if m.contains_key(x) {
            let a = choose|a: int| 0 <= a < q.len() && #[trigger] q[a].0 == x;
            let a2 = if a < j { a } else { a + 1 };
            assert(pairs[a2].0 == x);
            assert(a2 != j);
        }
        if e.contains_key(x) {
            let a = choose|a: int| 0 <= a < pairs.len() && #[trigger] pairs[a].0 == x;
            assert(a != j);
            let a1 = if a < j { a } else { a - 1 };
            assert(q[a1].0 == x);
        }
    }
    assert forall|x: Seq<char>| #[trigger] m.contains_key(x) implies m[x] == e[x] by {
        let a = choose|a: int| 0 <= a < q.len() && #[trigger] q[a].0 == x;
        let a2 = if a < j { a } else { a + 1 };
        assert(pairs[a2] == q[a]);
    }
    assert(m =~= e);
}

/// The position of the pair whose key is `key`, if there is one.
fn find_key(pairs: &Vec<(String, String)>, key: &String) -> (found: Option<usize>)
    ensures
        match found {
            Some(j) => j < pairs@.len() && pairs@[j as int].0@ == key@,
            None => forall|j: int| 0 <= j < pairs@.len() ==> pairs@[j].0@ != key@,
        },
{
    let n = pairs.len();
    let mut j: usize = 0;
    while j < n
        invariant
            n == pairs@.len(),
            j <= n,
            forall|a: int| 0 <= a < j ==> pairs@[a].0@ != key@,
        decreases n - j,
    {
        if pairs[j].0 == *key {
            return Some(j);
        }
        j = j + 1;
    }
    None
}

/// Parse the arguments given to the `-e` flag into the environment that they set: one
/// key-value pair per key, where a later argument for a key replaces an earlier one.
/// Arguments naming a variable that the environment does not hold are skipped; the first
/// argument naming a variable whose value is not valid Unicode makes the whole parse fail.
#[verifier::rlimit(60)]
pub fn parse_environment<E: Fn(&str) -> EnvLookup>(args: &[&str], getenv: E) -> (r: Result<Vec<(String, String)>, Error>)
    requires
        forall|name: &str| getenv.requires((name,)),
    ensures
        r is Err ==> r->Err_0 is InvalidEnvironmentVariable,
        r matches Ok(v) ==> keys_unique(pairs_view(v@)),
        exists|lookups: Seq<EnvLookup>|
            {
                &&& lookups.len() <= args@.len()
                &&& forall|i: int|
                    0 <= i < lookups.len() && split_at_equals(args@[i]@) is None ==> getenv.ensures(
                        (args@[i],),
                        #[trigger] lookups[i],
                    )
                &&& environment_view(r) == environment_result(
                    environment_entries(texts_of(args@).take(lookups.len() as int), lookups),
                )
                &&& r is Ok ==> lookups.len() == args@.len()
                &&& r is Err ==> lookups.len() > 0 && environment_entries(
                    texts_of(args@).take(lookups.len() - 1),
                    lookups.drop_last(),
                ) is Ok
            },
{
    let ghost texts = texts_of(args@);
    let mut out: Vec<(String, String)> = Vec::new();
    let ghost mut lookups: Seq<EnvLookup> = Seq::empty();
    let n = args.len();
    let mut i: usize = 0;
    assert(pairs_view(out@) =~= Seq::<(Seq<char>, Seq<char>)>::empty());
    assert(environment_map(Seq::<(Seq<char>, Seq<char>)>::empty()) =~= Map::empty());
    while i < n
        invariant
            n == args@.len(),
            texts == texts_of(args@),
            forall|name: &str| getenv.requires((name,)),
            i <= n,
            lookups.len() == i,
            forall|j: int|
                0 <= j < i && split_at_equals(args@[j]@) is None ==> getenv.ensures(
                    (args@[j],),
                    #[trigger] lookups[j],
                ),
            keys_unique(pairs_view(out@)),
            environment_result(environment_entries(texts.take(i as int), lookups)) == Ok::<
                Map<Seq<char>, Seq<char>>,
                Seq<char>,
            >(environment_map(pairs_view(out@))),
        decreases n - i,
    {
        let arg = args[i];
        let entry = parse_environment_arg(arg, &getenv);
        let ghost lookup = choose|lookup: EnvLookup|
            {
                &&& (split_at_equals(arg@) is None ==> getenv.ensures((arg,), lookup))
                &&& entry_view(entry) == arg_entry(arg@, lookup)
            };
        let ghost prev_lookups = lookups;
        let ghost prev_out = pairs_view(out@);
        proof {
            assert(texts[i as int] == arg@);
            lemma_entries_push(texts, lookups, i as int, lookup);
            lookups = lookups.push(lookup);
        }
        match entry {
            Ok(Some(kv)) => {
                let ghost key = kv.0@;
                let ghost value = kv.1@;
                proof {
                    lemma_unique_map(prev_out);
                }
                match find_key(&out, &kv.0) {
                    Some(j) => {
                        out.remove(j);
                        proof {
                            assert(pairs_view(out@) =~= prev_out.remove(j as int));
                            assert(prev_out[j as int].0 == key);
                            lemma_remove_key(prev_out, j as int);
                        }
                    },
                    None => {
                        proof {
                            assert(!environment_map(prev_out).contains_key(key)) by {
                                if environment_map(prev_out).contains_key(key) {
                                    let a = choose|a: int| 0 <= a < prev_out.len() && #[trigger] prev_out[a].0 == key;
                                    assert(out@[a].0@ == key);
                                }
                            }
                            assert(environment_map(prev_out).remove(key) =~= environment_map(prev_out));
                        }
                    },
                }
                let ghost middle = pairs_view(out@);
                proof {
                    assert(keys_unique(middle));
                    assert(environment_map(middle) == environment_map(prev_out).remove(key));
                    lemma_unique_map(middle);
                    assert forall|a: int| 0 <= a < middle.len() implies #[trigger] middle[a].0 != key by {
                        if middle[a].0 == key {
                            assert(environment_map(middle).contains_key(key));
                        }
                    }
                }
                out.push(kv);
                proof {
                    let now = pairs_view(out@);
                    assert(now =~= middle.push((key, value)));
                    assert(now.drop_last() =~= middle);
                    assert forall|a: int, b: int|
                        0 <= a < now.len() && 0 <= b < now.len() && #[trigger] now[a].0 == #[trigger] now[b].0 implies a == b by {
                        if a < middle.len() && b < middle.len() {
                            assert(middle[a].0 == middle[b].0);
                        } else if a < middle.len() {
                            assert(middle[a].0 != key);
                        } else if b < middle.len() {
                            assert(middle[b].0 != key);
                        }
                    }
                    assert(environment_map(now) == environment_map(middle).insert(key, value));
                    assert(environment_map(prev_out).remove(key).insert(key, value) =~= environment_map(prev_out).insert(key, value));
                    let prev_entries = environment_entries(texts.take(i as int), prev_lookups)->Ok_0;
                    assert(environment_map(prev_entries.push((key, value))) == environment_map(
                        prev_entries,
                    ).insert(key, value)) by {
                        assert(prev_entries.push((key, value)).drop_last() =~= prev_entries);
                    }
                }
            },
            Ok(None) => {},
            Err(e) => {
                let r = Err(e);
                assert(lookups.drop_last() =~= prev_lookups);
                return r;
            },
        }
        i = i + 1;
    }
    assert(texts.take(n as int) =~= texts);
    Ok(out)
}

} // verus!
