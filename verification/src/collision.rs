//! Target names that collide, and the counter that tells them apart.
//!
//! A target is a directory, the stem of a file name and its extension. Where
//! several records of a batch ask for one target, or a file stands there
//! already, the first record in the order of the batch keeps the name and each
//! later one gets `_1`, `_2`, ... behind the stem: the least number that
//! gives a name which nothing else has. A name that is nobody else's is never
//! changed, so a batch that went through once goes through unchanged.

use crate::path::text_of;
use crate::text::{decimal, decimal_string, is_digit, lemma_decimal_digits, lemma_decimal_injective};
use vstd::prelude::*;
use vstd::set_lib::{lemma_int_range, lemma_len_subset, lemma_map_size, set_int_range};

verus! {

/// A target as mathematics sees it.
pub struct Key {
    pub directory: Seq<char>,
    pub filename: Seq<char>,
    pub filetype: Option<Seq<char>>,
}

/// Where a file goes: a directory, the stem of the file name and the
/// extension.
#[derive(Clone, Debug, PartialEq, Eq)]
pub struct Target {
    pub directory: String,
    pub filename: String,
    pub filetype: Option<String>,
}

impl View for Target {
    type V = Key;

    open spec fn view(&self) -> Key {
        Key {
            directory: self.directory@,
            filename: self.filename@,
            filetype: text_of(self.filetype),
        }
    }
}

/// The target `key` with the counter `n` behind its stem.
pub open spec fn suffixed(key: Key, n: nat) -> Key {
    Key {
        directory: key.directory,
        filename: key.filename + seq!['_'] + decimal(n),
        filetype: key.filetype,
    }
}

/// Two texts that are equal, each made of a head, a separator and a tail
/// without that separator, have equal heads and equal tails.
pub proof fn lemma_split_at_last_separator(
    a: Seq<char>,
    x: Seq<char>,
    b: Seq<char>,
    y: Seq<char>,
    separator: char,
)
    requires
        a + seq![separator] + x == b + seq![separator] + y,
        forall|i: int| 0 <= i < x.len() ==> x[i] != separator,
        forall|i: int| 0 <= i < y.len() ==> y[i] != separator,
    ensures
        a == b,
        x == y,
{
    let left = a + seq![separator] + x;
    let right = b + seq![separator] + y;
    assert(left.len() == a.len() + 1 + x.len());
    assert(right.len() == b.len() + 1 + y.len());
    if x.len() < y.len() {
        let p = a.len() as int;
        assert(left[p] == separator);
        assert(right[p] == y[p - b.len() - 1]);
    } else if y.len() < x.len() {
        let p = b.len() as int;
        assert(right[p] == separator);
        assert(left[p] == x[p - a.len() - 1]);
    } else {
        assert forall|i: int| 0 <= i < a.len() implies a[i] == b[i] by {
            assert(left[i] == a[i]);
            assert(right[i] == b[i]);
        }
        assert(a =~= b);
        assert forall|i: int| 0 <= i < x.len() implies x[i] == y[i] by {
            assert(left[a.len() + 1 + i] == x[i]);
            assert(right[b.len() + 1 + i] == y[i]);
        }
        assert(x =~= y);
    }
}

/// A numeral holds no underscore.
pub proof fn lemma_decimal_has_no_underscore(n: nat)
    ensures
        forall|i: int| 0 <= i < decimal(n).len() ==> decimal(n)[i] != '_',
{
    lemma_decimal_digits(n);
    assert forall|i: int| 0 <= i < decimal(n).len() implies decimal(n)[i] != '_' by {
        assert(is_digit(decimal(n)[i]));
    }
}

/// A suffixed target tells both the target and the counter it was made of.
pub proof fn lemma_suffixed_injective(a: Key, m: nat, b: Key, n: nat)
    requires
        suffixed(a, m) == suffixed(b, n),
    ensures
        a == b,
        m == n,
{
    lemma_decimal_has_no_underscore(m);
    lemma_decimal_has_no_underscore(n);
    lemma_split_at_last_separator(a.filename, decimal(m), b.filename, decimal(n), '_');
    lemma_decimal_injective(m, n);
}

/// A suffixed target is never the target it was made of.
pub proof fn lemma_suffixed_differs(key: Key, n: nat)
    ensures
        suffixed(key, n) != key,
{
    lemma_decimal_digits(n);
    assert(suffixed(key, n).filename.len() == key.filename.len() + 1 + decimal(n).len());
}

/// Where `count` different things all occur in `pool`, `pool` has at least
/// `count` entries.
pub proof fn lemma_pigeonhole<A>(pool: Seq<A>, f: spec_fn(int) -> A, count: int)
    requires
        0 <= count,
        forall|m: int| 1 <= m <= count ==> pool.contains(#[trigger] f(m)),
        forall|m1: int, m2: int|
            1 <= m1 <= count && 1 <= m2 <= count && #[trigger] f(m1) == #[trigger] f(m2) ==> m1
                == m2,
    ensures
        count <= pool.len(),
{
    broadcast use vstd::seq_lib::seq_to_set_is_finite;

    let numbers = set_int_range(1, count + 1);
    lemma_int_range(1, count + 1);
    let images = numbers.map(f);
    assert(vstd::relations::injective_on(f, numbers));
    lemma_map_size(numbers, images, f);
    assert(images.subset_of(pool.to_set())) by {
        assert forall|b: A| images.contains(b) implies pool.to_set().contains(b) by {
            let m = choose|m: int| numbers.contains(m) && f(m) == b;
            assert(pool.contains(f(m)));
        }
    }
    lemma_len_subset(images, pool.to_set());
    pool.lemma_cardinality_of_set();
}

/// Whether the name `candidate` is spoken for: a file on disk has it, a
/// record of the batch asked for it, or it was handed out already.
pub open spec fn is_taken(
    keys: Seq<Option<Key>>,
    existing: Seq<Key>,
    handed_out: Seq<Key>,
    candidate: Key,
) -> bool {
    existing.contains(candidate) || keys.contains(Some(candidate)) || handed_out.contains(
        candidate,
    )
}

/// Whether `n` is the least counter, from 1, that makes of `key` a name that
/// is not spoken for.
pub open spec fn is_first_free(
    key: Key,
    keys: Seq<Option<Key>>,
    existing: Seq<Key>,
    handed_out: Seq<Key>,
    n: nat,
) -> bool {
    &&& n >= 1
    &&& !is_taken(keys, existing, handed_out, suffixed(key, n))
    &&& forall|m: nat|
        1 <= m < n ==> is_taken(keys, existing, handed_out, #[trigger] suffixed(key, m))
}

/// The least counter, from 1, that makes of `key` a name that is not spoken
/// for.
pub open spec fn first_free(
    key: Key,
    keys: Seq<Option<Key>>,
    existing: Seq<Key>,
    handed_out: Seq<Key>,
) -> nat {
    choose|n: nat| is_first_free(key, keys, existing, handed_out, n)
}

/// Whether record `i` must change its name: it asks for a target that a file
/// on disk has, or that an earlier record of the batch asked for.
pub open spec fn is_duplicate(keys: Seq<Option<Key>>, existing: Seq<Key>, i: int) -> bool {
    keys[i] matches Some(k) && (existing.contains(k) || keys.take(i).contains(Some(k)))
}

/// The names handed out to the duplicates among the first `n` records, in
/// the order of the batch.
pub open spec fn handed_out(keys: Seq<Option<Key>>, existing: Seq<Key>, n: nat) -> Seq<Key>
    decreases n,
{
    if n == 0 {
        Seq::empty()
    } else {
        let before = handed_out(keys, existing, (n - 1) as nat);
        if is_duplicate(keys, existing, n - 1) {
            before.push(
                suffixed(keys[n - 1]->0, first_free(keys[n - 1]->0, keys, existing, before)),
            )
        } else {
            before
        }
    }
}

/// The target of record `i` after the collisions are resolved.
pub open spec fn resolved_key(keys: Seq<Option<Key>>, existing: Seq<Key>, i: int) -> Option<
    Key,
> {
    if is_duplicate(keys, existing, i) {
        Some(
            suffixed(
                keys[i]->0,
                first_free(keys[i]->0, keys, existing, handed_out(keys, existing, i as nat)),
            ),
        )
    } else {
        keys[i]
    }
}

/// The targets of a batch after the collisions are resolved. `keys` holds the
/// target that each record asks for, `None` for a record that takes no part;
/// `existing` holds the targets at which files stand already.
pub open spec fn resolved_keys(keys: Seq<Option<Key>>, existing: Seq<Key>) -> Seq<Option<Key>> {
    Seq::new(keys.len(), |i: int| resolved_key(keys, existing, i))
}

/// All names that are spoken for, in one sequence.
pub open spec fn pool(keys: Seq<Option<Key>>, existing: Seq<Key>, handed_out: Seq<Key>) -> Seq<
    Option<Key>,
> {
    existing.map_values(|k: Key| Some(k)) + keys + handed_out.map_values(|k: Key| Some(k))
}

/// A name that is spoken for occurs in the pool.
pub proof fn lemma_taken_in_pool(
    keys: Seq<Option<Key>>,
    existing: Seq<Key>,
    handed_out: Seq<Key>,
    candidate: Key,
)
    requires
        is_taken(keys, existing, handed_out, candidate),
    ensures
        pool(keys, existing, handed_out).contains(Some(candidate)),
{
    let all = pool(keys, existing, handed_out);
    if existing.contains(candidate) {
        let i = choose|i: int| 0 <= i < existing.len() && existing[i] == candidate;
        assert(all[i] == Some(candidate));
    } else if keys.contains(Some(candidate)) {
        let i = choose|i: int| 0 <= i < keys.len() && keys[i] == Some(candidate);
        assert(all[existing.len() + i] == Some(candidate));
    } else {
        let i = choose|i: int| 0 <= i < handed_out.len() && handed_out[i] == candidate;
        assert(all[existing.len() + keys.len() + i] == Some(candidate));
    }
}

/// Where the counters from 1 to `count` all give names that are spoken for,
/// `count` is at most the number of names spoken for.
pub proof fn lemma_taken_counters_bounded(
    key: Key,
    keys: Seq<Option<Key>>,
    existing: Seq<Key>,
    handed_out: Seq<Key>,
    count: nat,
)
    requires
        forall|m: nat|
            1 <= m <= count ==> is_taken(keys, existing, handed_out, #[trigger] suffixed(key, m)),
    ensures
        count <= existing.len() + keys.len() + handed_out.len(),
{
    let all = pool(keys, existing, handed_out);
    let f = |m: int| Some(suffixed(key, m as nat));
    assert forall|m: int| 1 <= m <= count implies all.contains(#[trigger] f(m)) by {
        lemma_taken_in_pool(keys, existing, handed_out, suffixed(key, m as nat));
    }
    assert forall|m1: int, m2: int|
        1 <= m1 <= count && 1 <= m2 <= count && #[trigger] f(m1) == #[trigger] f(m2) implies m1
        == m2 by {
        lemma_suffixed_injective(key, m1 as nat, key, m2 as nat);
    }
    lemma_pigeonhole(all, f, count as int);
}

/// Searches upwards from `n` for the first counter that is free.
proof fn lemma_first_free_from(
    key: Key,
    keys: Seq<Option<Key>>,
    existing: Seq<Key>,
    handed_out: Seq<Key>,
    n: nat,
) -> (found: nat)
    requires
        n >= 1,
        forall|m: nat|
            1 <= m < n ==> is_taken(keys, existing, handed_out, #[trigger] suffixed(key, m)),
    ensures
        is_first_free(key, keys, existing, handed_out, found),
    decreases existing.len() + keys.len() + handed_out.len() + 1 - n,
{
    lemma_taken_counters_bounded(key, keys, existing, handed_out, (n - 1) as nat);
    if is_taken(keys, existing, handed_out, suffixed(key, n)) {
        lemma_taken_counters_bounded(key, keys, existing, handed_out, n);
        lemma_first_free_from(key, keys, existing, handed_out, n + 1)
    } else {
        n
    }
}

/// There is a first free counter, `first_free` is it, and it is at most one
/// more than the number of names spoken for.
pub proof fn lemma_first_free(
    key: Key,
    keys: Seq<Option<Key>>,
    existing: Seq<Key>,
    handed_out: Seq<Key>,
)
    ensures
        is_first_free(key, keys, existing, handed_out, first_free(key, keys, existing, handed_out)),
        first_free(key, keys, existing, handed_out) <= existing.len() + keys.len()
            + handed_out.len() + 1,
{
    let found = lemma_first_free_from(key, keys, existing, handed_out, 1);
    let n = first_free(key, keys, existing, handed_out);
    lemma_taken_counters_bounded(key, keys, existing, handed_out, (n - 1) as nat);
}

/// No two counters are both the first free one.
pub proof fn lemma_first_free_unique(
    key: Key,
    keys: Seq<Option<Key>>,
    existing: Seq<Key>,
    handed_out: Seq<Key>,
    a: nat,
    b: nat,
)
    requires
        is_first_free(key, keys, existing, handed_out, a),
        is_first_free(key, keys, existing, handed_out, b),
    ensures
        a == b,
{
    if a < b {
        assert(is_taken(keys, existing, handed_out, suffixed(key, a)));
    } else if b < a {
        assert(is_taken(keys, existing, handed_out, suffixed(key, b)));
    }
}

/// The targets of a list, as mathematics sees them.
pub open spec fn target_views(targets: Seq<Target>) -> Seq<Key> {
    Seq::new(targets.len(), |i: int| targets[i]@)
}

/// What a record asks for, as mathematics sees it.
pub open spec fn claim_view(claim: Option<Target>) -> Option<Key> {
    match claim {
        Some(t) => Some(t@),
        None => None,
    }
}

/// What the records of a batch ask for, as mathematics sees it.
pub open spec fn claim_views(claims: Seq<Option<Target>>) -> Seq<Option<Key>> {
    Seq::new(claims.len(), |i: int| claim_view(claims[i]))
}

impl Target {
    /// A copy of this target.
    pub fn duplicate(&self) -> (r: Target)
        ensures
            r@ == self@,
    {
        Target {
            directory: self.directory.clone(),
            filename: self.filename.clone(),
            filetype: match &self.filetype {
                Some(e) => Some(e.clone()),
                None => None,
            },
        }
    }

    /// Whether this target and `other` are the same.
    pub fn same_as(&self, other: &Target) -> (r: bool)
        ensures
            r == (self@ == other@),
    {
        let same_type = match &self.filetype {
            Some(a) => match &other.filetype {
                Some(b) => a.eq(b),
                None => false,
            },
            None => other.filetype.is_none(),
        };
        let same_directory = self.directory.eq(&other.directory);
        let same_name = self.filename.eq(&other.filename);
        same_type && same_directory && same_name
    }

    /// This target with the counter `n` behind its stem.
    pub fn with_counter(&self, n: u128) -> (r: Target)
        ensures
            r@ == suffixed(self@, n as nat),
    {
        let mut filename = self.filename.clone();
        proof {
            reveal_strlit("_");
        }
        filename.append("_");
        filename.append(decimal_string(n).as_str());
        assert(filename@ =~= self.filename@ + seq!['_'] + decimal(n as nat));
        Target {
            directory: self.directory.clone(),
            filename,
            filetype: match &self.filetype {
                Some(e) => Some(e.clone()),
                None => None,
            },
        }
    }
}

/// Whether `candidate` is among `targets`.
pub fn holds_target(targets: &Vec<Target>, candidate: &Target) -> (r: bool)
    ensures
        r == target_views(targets@).contains(candidate@),
{
    let mut i: usize = 0;
    while i < targets.len()
        invariant
            i <= targets.len(),
            forall|j: int| 0 <= j < i ==> target_views(targets@)[j] != candidate@,
        decreases targets.len() - i,
    {
        if targets[i].same_as(candidate) {
            assert(target_views(targets@)[i as int] == candidate@);
            return true;
        }
        i = i + 1;
    }
    false
}

/// Whether one of the first `upto` records asks for `candidate`.
pub fn claims_target(claims: &Vec<Option<Target>>, upto: usize, candidate: &Target) -> (r: bool)
    requires
        upto <= claims.len(),
    ensures
        r == claim_views(claims@).take(upto as int).contains(Some(candidate@)),
{
    let mut i: usize = 0;
    while i < upto
        invariant
            i <= upto <= claims.len(),
            forall|j: int|
                0 <= j < i ==> claim_views(claims@).take(upto as int)[j] != Some(candidate@),
        decreases upto - i,
    {
        let same = match &claims[i] {
            Some(t) => t.same_as(candidate),
            None => false,
        };
        if same {
            assert(claim_views(claims@).take(upto as int)[i as int] == Some(candidate@));
            return true;
        }
        i = i + 1;
    }
    false
}

/// The first name that is free for a record that asks for `key`: `key` with
/// the least counter that gives a name which no file on disk has, no record
/// asks for, and which was not handed out before.
pub fn first_free_target(
    key: &Target,
    claims: &Vec<Option<Target>>,
    existing: &Vec<Target>,
    given: &Vec<Target>,
) -> (r: Target)
    ensures
        r@ == suffixed(
            key@,
            first_free(
                key@,
                claim_views(claims@),
                target_views(existing@),
                target_views(given@),
            ),
        ),
{
    let ghost keys = claim_views(claims@);
    let ghost disk = target_views(existing@);
    let ghost out = target_views(given@);
    let mut n: u128 = 1;
    loop
        invariant
            1 <= n,
            n <= existing.len() + claims.len() + given.len() + 1,
            keys == claim_views(claims@),
            disk == target_views(existing@),
            out == target_views(given@),
            forall|m: nat| 1 <= m < n ==> is_taken(keys, disk, out, #[trigger] suffixed(key@, m)),
        decreases existing.len() + claims.len() + given.len() + 1 - n,
    {
        let candidate = key.with_counter(n);
        assert(keys.take(claims.len() as int) =~= keys);
        let taken = holds_target(existing, &candidate) || claims_target(
            claims,
            claims.len(),
            &candidate,
        ) || holds_target(given, &candidate);
        if !taken {
            proof {
                assert(is_first_free(key@, keys, disk, out, n as nat));
                lemma_first_free(key@, keys, disk, out);
                lemma_first_free_unique(
                    key@,
                    keys,
                    disk,
                    out,
                    n as nat,
                    first_free(key@, keys, disk, out),
                );
            }
            return candidate;
        }
        proof {
            lemma_taken_counters_bounded(key@, keys, disk, out, n as nat);
        }
        n = n + 1;
    }
}

/// Resolves the collisions of a batch. `claims` holds the target that each
/// record asks for, `None` for a record that takes no part; `existing` holds
/// the targets at which files stand already. The result holds, for each
/// record, the target that it gets.
pub fn resolve_collisions(claims: &Vec<Option<Target>>, existing: &Vec<Target>) -> (r: Vec<
    Option<Target>,
>)
    ensures
        claim_views(r@) == resolved_keys(claim_views(claims@), target_views(existing@)),
{
    let ghost keys = claim_views(claims@);
    let ghost disk = target_views(existing@);
    let mut resolved: Vec<Option<Target>> = Vec::new();
    let mut given: Vec<Target> = Vec::new();
    let mut i: usize = 0;
    while i < claims.len()
        invariant
            i <= claims.len(),
            keys == claim_views(claims@),
            disk == target_views(existing@),
            resolved.len() == i,
            given.len() <= i,
            target_views(given@) == handed_out(keys, disk, i as nat),
            forall|j: int| 0 <= j < i ==> claim_view(resolved@[j]) == resolved_key(keys, disk, j),
        decreases claims.len() - i,
    {
        let ghost before = target_views(given@);
        let entry = match &claims[i] {
            None => None,
            Some(key) => {
                assert(keys[i as int] == Some(key@));
                if holds_target(existing, key) || claims_target(claims, i, key) {
                    let fresh = first_free_target(key, claims, existing, &given);
                    given.push(fresh.duplicate());
                    assert(target_views(given@) =~= before.push(fresh@));
                    Some(fresh)
                } else {
                    Some(key.duplicate())
                }
            },
        };
        assert(claim_view(entry) == resolved_key(keys, disk, i as int));
        resolved.push(entry);
        i = i + 1;
    }
    assert(claim_views(resolved@) =~= resolved_keys(keys, disk));
    resolved
}

/// The name handed out to a duplicate stays handed out.
pub proof fn lemma_handed_out_holds(keys: Seq<Option<Key>>, existing: Seq<Key>, n: nat, j: int)
    requires
        0 <= j < n <= keys.len(),
        is_duplicate(keys, existing, j),
    ensures
        handed_out(keys, existing, n).contains(resolved_key(keys, existing, j)->0),
    decreases n,
{
    let before = handed_out(keys, existing, (n - 1) as nat);
    let now = handed_out(keys, existing, n);
    let name = resolved_key(keys, existing, j)->0;
    if j == n - 1 {
        assert(now[before.len() as int] == name);
    } else {
        lemma_handed_out_holds(keys, existing, (n - 1) as nat, j);
        let at = choose|at: int| 0 <= at < before.len() && before[at] == name;
        assert(now[at] == name);
    }
}

/// Every name handed out went to a duplicate.
pub proof fn lemma_handed_out_origin(
    keys: Seq<Option<Key>>,
    existing: Seq<Key>,
    n: nat,
    name: Key,
) -> (j: int)
    requires
        n <= keys.len(),
        handed_out(keys, existing, n).contains(name),
    ensures
        0 <= j < n,
        is_duplicate(keys, existing, j),
        resolved_key(keys, existing, j) == Some(name),
    decreases n,
{
    let before = handed_out(keys, existing, (n - 1) as nat);
    let now = handed_out(keys, existing, n);
    if n == 0 {
        0
    } else {
        let at = choose|at: int| 0 <= at < now.len() && now[at] == name;
        if is_duplicate(keys, existing, n - 1) && at == before.len() {
            n - 1
        } else {
            assert(before[at] == name);
            lemma_handed_out_origin(keys, existing, (n - 1) as nat, name)
        }
    }
}

/// The name that a duplicate gets is free when it gets it.
pub proof fn lemma_resolved_is_free(keys: Seq<Option<Key>>, existing: Seq<Key>, i: int)
    requires
        0 <= i < keys.len(),
        is_duplicate(keys, existing, i),
    ensures
        !is_taken(
            keys,
            existing,
            handed_out(keys, existing, i as nat),
            resolved_key(keys, existing, i)->0,
        ),
{
    lemma_first_free(keys[i]->0, keys, existing, handed_out(keys, existing, i as nat));
}

/// No file on disk has a target that the resolution gives to a record.
pub proof fn lemma_resolved_not_existing(keys: Seq<Option<Key>>, existing: Seq<Key>, i: int)
    requires
        0 <= i < keys.len(),
        resolved_key(keys, existing, i) is Some,
    ensures
        !existing.contains(resolved_key(keys, existing, i)->0),
{
    if is_duplicate(keys, existing, i) {
        lemma_resolved_is_free(keys, existing, i);
    }
}

/// No two records get the same target.
pub proof fn lemma_resolved_distinct(keys: Seq<Option<Key>>, existing: Seq<Key>, i: int, j: int)
    requires
        0 <= j < i < keys.len(),
        resolved_key(keys, existing, i) is Some,
    ensures
        resolved_key(keys, existing, i) != resolved_key(keys, existing, j),
{
    let mine = resolved_key(keys, existing, i);
    let other = resolved_key(keys, existing, j);
    if mine == other {
        if is_duplicate(keys, existing, i) {
            lemma_resolved_is_free(keys, existing, i);
            if is_duplicate(keys, existing, j) {
                lemma_handed_out_holds(keys, existing, i as nat, j);
            } else {
                assert(keys[j] == mine);
            }
        } else {
            if is_duplicate(keys, existing, j) {
                lemma_resolved_is_free(keys, existing, j);
                assert(keys[i] == other);
            } else {
                assert(keys.take(i)[j] == keys[i]);
            }
        }
    }
}

/// What the resolver promises: after it, no two records have the same target,
/// and no record has the target of a file on disk.
pub proof fn lemma_resolved_unique(keys: Seq<Option<Key>>, existing: Seq<Key>)
    ensures
        forall|i: int, j: int|
            0 <= i < keys.len() && 0 <= j < keys.len() && i != j && (#[trigger] resolved_keys(
                keys,
                existing,
            )[i]) is Some ==> resolved_keys(keys, existing)[i] != #[trigger] resolved_keys(
                keys,
                existing,
            )[j],
        forall|i: int|
            0 <= i < keys.len() && (#[trigger] resolved_keys(keys, existing)[i]) is Some
                ==> !existing.contains(resolved_keys(keys, existing)[i]->0),
{
    let r = resolved_keys(keys, existing);
    assert forall|i: int, j: int|
        0 <= i < keys.len() && 0 <= j < keys.len() && i != j && (#[trigger] r[i]) is Some implies r[i]
        != #[trigger] r[j] by {
        if j < i {
            lemma_resolved_distinct(keys, existing, i, j);
        } else if r[j] is Some {
            lemma_resolved_distinct(keys, existing, j, i);
        }
    }
    assert forall|i: int| 0 <= i < keys.len() && (#[trigger] r[i]) is Some implies !existing.contains(
        r[i]->0,
    ) by {
        lemma_resolved_not_existing(keys, existing, i);
    }
}

/// A record whose target nobody else has keeps it: the first of the records
/// that ask for a target keeps it too, unless a file stands there.
pub proof fn lemma_first_seen_keeps(keys: Seq<Option<Key>>, existing: Seq<Key>, i: int)
    requires
        0 <= i < keys.len(),
        keys[i] matches Some(k) ==> !existing.contains(k) && forall|j: int|
            0 <= j < i ==> keys[j] != Some(k),
    ensures
        resolved_keys(keys, existing)[i] == keys[i],
{
    if is_duplicate(keys, existing, i) {
        let k = keys[i]->0;
        let j = choose|j: int| 0 <= j < keys.take(i).len() && keys.take(i)[j] == Some(k);
        assert(keys[j] == Some(k));
    }
}

/// Resolving twice gives what resolving once gives: after the first time no
/// target is asked for twice, so the second time changes nothing.
pub proof fn lemma_resolution_idempotent(keys: Seq<Option<Key>>, existing: Seq<Key>)
    ensures
        resolved_keys(resolved_keys(keys, existing), existing) == resolved_keys(keys, existing),
{
    let once = resolved_keys(keys, existing);
    assert forall|i: int| 0 <= i < once.len() implies resolved_key(once, existing, i)
        == once[i] by {
        if is_duplicate(once, existing, i) {
            let k = once[i]->0;
            lemma_resolved_not_existing(keys, existing, i);
            let j = choose|j: int| 0 <= j < once.take(i).len() && once.take(i)[j] == Some(k);
            assert(once[j] == Some(k));
            lemma_resolved_distinct(keys, existing, i, j);
        }
    }
    assert(resolved_keys(once, existing) =~= once);
}

/// The number of records before record `i` that ask for `key`.
pub open spec fn earlier_claims(keys: Seq<Option<Key>>, key: Key, i: int) -> nat
    decreases i,
{
    if i <= 0 {
        0
    } else if keys[i - 1] == Some(key) {
        earlier_claims(keys, key, i - 1) + 1
    } else {
        earlier_claims(keys, key, i - 1)
    }
}

/// The count of earlier claims grows with the index, and by one past each
/// record that asks for `key`.
pub proof fn lemma_earlier_claims_grow(keys: Seq<Option<Key>>, key: Key, j: int, i: int)
    requires
        0 <= j <= i,
    ensures
        earlier_claims(keys, key, j) <= earlier_claims(keys, key, i),
        j < i && keys[j] == Some(key) ==> earlier_claims(keys, key, j) < earlier_claims(
            keys,
            key,
            i,
        ),
    decreases i - j,
{
    if j < i {
        lemma_earlier_claims_grow(keys, key, j, i - 1);
    }
}

/// Where no earlier record asks for `key`, the count is 0, and the other way
/// round.
pub proof fn lemma_earlier_claims_none(keys: Seq<Option<Key>>, key: Key, i: int)
    requires
        0 <= i <= keys.len(),
    ensures
        earlier_claims(keys, key, i) == 0 <==> !keys.take(i).contains(Some(key)),
    decreases i,
{
    if i > 0 {
        lemma_earlier_claims_none(keys, key, i - 1);
        if keys.take(i).contains(Some(key)) {
            let j = choose|j: int| 0 <= j < keys.take(i).len() && keys.take(i)[j] == Some(key);
            if j < i - 1 {
                let shorter = keys.take(i - 1);
                assert(shorter[j] == Some(key));
            }
        }
        let shorter = keys.take(i - 1);
        if shorter.contains(Some(key)) {
            let j = choose|j: int| 0 <= j < shorter.len() && shorter[j] == Some(key);
            assert(keys.take(i)[j] == Some(key));
        }
        if keys[i - 1] == Some(key) {
            assert(keys.take(i)[i - 1] == Some(key));
        }
    }
}

/// Each count below that of record `i` is the count of an earlier record
/// that asks for `key`.
pub proof fn lemma_earlier_claims_reached(keys: Seq<Option<Key>>, key: Key, i: int, m: nat) -> (j:
    int)
    requires
        0 <= i,
        m < earlier_claims(keys, key, i),
    ensures
        0 <= j < i,
        keys[j] == Some(key),
        earlier_claims(keys, key, j) == m,
    decreases i,
{
    if keys[i - 1] == Some(key) && earlier_claims(keys, key, i - 1) == m {
        i - 1
    } else {
        lemma_earlier_claims_reached(keys, key, i - 1, m)
    }
}

/// The counter rule: of the records that ask for one target, the first keeps
/// it, the second gets `_1`, the third `_2`, and so on. It holds of a record
/// where no file stands at the target, and neither a file nor a record of the
/// batch has one of the names with a counter up to the record's own.
pub proof fn lemma_counter_suffix(keys: Seq<Option<Key>>, existing: Seq<Key>, i: int)
    requires
        0 <= i < keys.len(),
        keys[i] is Some,
        !existing.contains(keys[i]->0),
        forall|m: nat|
            1 <= m <= earlier_claims(keys, keys[i]->0, i) ==> !existing.contains(
                #[trigger] suffixed(keys[i]->0, m),
            ) && !keys.contains(Some(suffixed(keys[i]->0, m))),
    ensures
        earlier_claims(keys, keys[i]->0, i) == 0 ==> resolved_keys(keys, existing)[i] == keys[i],
        earlier_claims(keys, keys[i]->0, i) > 0 ==> resolved_keys(keys, existing)[i] == Some(
            suffixed(keys[i]->0, earlier_claims(keys, keys[i]->0, i)),
        ),
    decreases i,
{
    let key = keys[i]->0;
    let count = earlier_claims(keys, key, i);
    let given = handed_out(keys, existing, i as nat);
    lemma_earlier_claims_none(keys, key, i);
    if count > 0 {
        assert(is_duplicate(keys, existing, i));
        assert forall|m: nat| 1 <= m < count implies is_taken(
            keys,
            existing,
            given,
            #[trigger] suffixed(key, m),
        ) by {
            let j = lemma_earlier_claims_reached(keys, key, i, m);
            lemma_earlier_claims_none(keys, key, j);
            lemma_counter_suffix(keys, existing, j);
            lemma_handed_out_holds(keys, existing, i as nat, j);
        }
        if given.contains(suffixed(key, count)) {
            let j = lemma_handed_out_origin(keys, existing, i as nat, suffixed(key, count));
            let ghost other = keys[j]->0;
            let ghost number = first_free(
                other,
                keys,
                existing,
                handed_out(keys, existing, j as nat),
            );
            lemma_suffixed_injective(other, number, key, count);
            lemma_earlier_claims_grow(keys, key, j, i);
            lemma_earlier_claims_none(keys, key, j);
            lemma_counter_suffix(keys, existing, j);
            if earlier_claims(keys, key, j) > 0 {
                lemma_suffixed_injective(key, earlier_claims(keys, key, j), key, count);
            } else {
                lemma_suffixed_differs(key, count);
            }
        }
        assert(is_first_free(key, keys, existing, given, count));
        lemma_first_free(key, keys, existing, given);
        lemma_first_free_unique(
            key,
            keys,
            existing,
            given,
            count,
            first_free(key, keys, existing, given),
        );
    }
}

} // verus!
