//! Looking things up by name in lists of named entries, and reading the
//! name/type-code lists that functions are registered with.
use vstd::prelude::*;
use crate::types::{Type, type_code, lemma_type_code_injective};
use indexmap::IndexMap;

verus! {

#[verifier::external_type_specification]
#[verifier::external_body]
#[verifier::reject_recursive_types(K)]
#[verifier::reject_recursive_types(V)]
#[verifier::reject_recursive_types(S)]
pub struct ExIndexMap<K, V, S>(IndexMap<K, V, S>);

/// Names with their types, in the order they were declared.
pub type TypeMap = IndexMap<String, Type>;

/// What a map of named types holds, in order.
pub uninterp spec fn descriptor_entries(m: TypeMap) -> Seq<(Seq<char>, Type)>;

/// Relies on `IndexMap::new`: a new map holds nothing.
#[verifier::external_body]
pub fn new_type_map() -> (r: TypeMap)
    ensures
        descriptor_entries(r) == Seq::<(Seq<char>, Type)>::empty(),
{
    IndexMap::new()
}

/// Relies on `IndexMap::insert`: a key already present keeps its place and
/// takes the new value; a new key goes last.
#[verifier::external_body]
fn insert_type(m: &mut TypeMap, k: String, t: Type)
    ensures
        descriptor_entries(*final(m)) == put_descriptor(descriptor_entries(*old(m)), k@, t),
{
    m.insert(k, t);
}

/// Relies on `IndexMap::len`: the number of entries.
#[verifier::external_body]
pub fn type_map_len(m: &TypeMap) -> (r: usize)
    ensures
        r == descriptor_entries(*m).len(),
{
    m.len()
}

/// Relies on `IndexMap::get_index`: the entry at position `i`, for `i` below
/// the length.
#[verifier::external_body]
pub fn type_map_entry(m: &TypeMap, i: usize) -> (r: Option<(&String, &Type)>)
    ensures
        match r {
            Some((k, t)) => i < descriptor_entries(*m).len() && k@ == descriptor_entries(*m)[i as int].0
                && *t == descriptor_entries(*m)[i as int].1,
            None => i >= descriptor_entries(*m).len(),
        },
{
    m.get_index(i)
}

broadcast use vstd::std_specs::vec::group_vec_axioms;

/// The names of a list of named entries.
pub open spec fn names_of<T>(v: Seq<(String, T)>) -> Seq<Seq<char>> {
    Seq::new(v.len(), |i: int| v[i].0@)
}

/// The position of the first entry named `n`, or -1.
pub open spec fn first_named(s: Seq<Seq<char>>, n: Seq<char>) -> int
    decreases s.len(),
{
    if s.len() == 0 {
        -1
    } else if s[0] == n {
        0
    } else {
        let r = first_named(s.drop_first(), n);
        if r < 0 {
            -1
        } else {
            r + 1
        }
    }
}

pub proof fn lemma_first_named(s: Seq<Seq<char>>, n: Seq<char>)
    ensures
        -1 <= first_named(s, n) < s.len(),
        first_named(s, n) >= 0 ==> s[first_named(s, n)] == n,
        first_named(s, n) >= 0 ==> forall|k: int| 0 <= k < first_named(s, n) ==> s[k] != n,
        first_named(s, n) < 0 <==> !s.contains(n),
    decreases s.len(),
{
    if s.len() > 0 {
        lemma_first_named(s.drop_first(), n);
        if s[0] != n {
            if s.contains(n) {
                let k = choose|k: int| 0 <= k < s.len() && s[k] == n;
                assert(s.drop_first()[k - 1] == n);
            }
            if s.drop_first().contains(n) {
                let k = choose|k: int| 0 <= k < s.drop_first().len() && s.drop_first()[k] == n;
                assert(s[k + 1] == n);
            }
            let f = first_named(s, n);
            if f >= 0 {
                assert forall|k: int| 0 <= k < f implies s[k] != n by {
                    if k > 0 {
                        assert(s[k] == s.drop_first()[k - 1]);
                    }
                }
            }
        }
    }
}

/// Finds the first entry named `n`.
pub fn position_by_name<T>(v: &Vec<(String, T)>, n: &String) -> (r: Option<usize>)
    ensures
        first_named(names_of(v@), n@) == (match r {
            Some(i) => i as int,
            None => -1,
        }),
        r is Some ==> r->0 < v@.len() && v@[r->0 as int].0@ == n@,
{
    let ghost s = names_of(v@);
    proof {
        assert(s.subrange(0, s.len() as int) =~= s);
    }
    let mut i: usize = 0;
    while i < v.len()
        invariant
            i <= v@.len(),
            s == names_of(v@),
            first_named(s, n@) == (if first_named(s.subrange(i as int, s.len() as int), n@) < 0 {
                -1
            } else {
                first_named(s.subrange(i as int, s.len() as int), n@) + i
            }),
        decreases v.len() - i,
    {
        proof {
            assert(s.subrange(i as int, s.len() as int).drop_first() =~= s.subrange(
                i + 1,
                s.len() as int,
            ));
        }
        if v[i].0 == *n {
            return Some(i);
        }
        i += 1;
    }
    None
}

/// The type whose wire string is `s`, if any.
pub open spec fn type_from_code(s: Seq<char>) -> Option<Type> {
    if exists|t: Type| type_code(t) == s {
        Some(choose|t: Type| type_code(t) == s)
    } else {
        None
    }
}

/// The type code of `s`, read with `Type::from_str`.
pub fn parse_type(s: &String) -> (r: Option<Type>)
    ensures
        r == type_from_code(s@),
{
    let r = Type::from_str(s.as_str());
    proof {
        if let Some(t) = r {
            let c = choose|c: Type| type_code(c) == s@;
            lemma_type_code_injective(t, c);
        }
    }
    r
}

/// `m` with `n` mapped to `t`: an entry of that name keeps its place and
/// takes the new type, else the entry is added at the end.
pub open spec fn put_descriptor(m: Seq<(Seq<char>, Type)>, n: Seq<char>, t: Type) -> Seq<
    (Seq<char>, Type),
> {
    let i = first_named(Seq::new(m.len(), |k: int| m[k].0), n);
    if i < 0 {
        m.push((n, t))
    } else {
        m.update(i, (n, t))
    }
}

/// What reading name/type-code pairs in order gives; `None` if a code is
/// not recognized.
pub open spec fn parse_descriptors_spec(d: Seq<(Seq<char>, Seq<char>)>) -> Option<
    Seq<(Seq<char>, Type)>,
>
    decreases d.len(),
{
    if d.len() == 0 {
        Some(Seq::empty())
    } else {
        match parse_descriptors_spec(d.drop_last()) {
            None => None,
            Some(m) => match type_from_code(d.last().1) {
                None => None,
                Some(t) => Some(put_descriptor(m, d.last().0, t)),
            },
        }
    }
}

/// Reads name/type-code pairs, in order, into names with their types.
pub fn parse_descriptors(d: &Vec<(String, String)>) -> (r: Option<TypeMap>)
    ensures
        match parse_descriptors_spec(d.deep_view()) {
            Some(m) => r is Some && descriptor_entries(r->0) == m,
            None => r is None,
        },
{
    let ghost dv = d.deep_view();
    let mut out = new_type_map();
    let mut i: usize = 0;
    proof {
        assert(dv.take(0) =~= Seq::<(Seq<char>, Seq<char>)>::empty());
    }
    while i < d.len()
        invariant
            i <= d@.len(),
            dv == d.deep_view(),
            parse_descriptors_spec(dv.take(i as int)) == Some(descriptor_entries(out)),
        decreases d.len() - i,
    {
        proof {
            assert(dv.take(i + 1).drop_last() =~= dv.take(i as int));
        }
        let t = match parse_type(&d[i].1) {
            Some(t) => t,
            None => {
                proof {
                    assert(parse_descriptors_spec(dv.take(i + 1)) is None);
                    lemma_parse_none_extends(dv, i as int + 1);
                }
                return None;
            },
        };
        insert_type(&mut out, d[i].0.clone(), t);
        i += 1;
    }
    proof {
        assert(dv.take(dv.len() as int) =~= dv);
    }
    Some(out)
}

proof fn lemma_parse_none_extends(d: Seq<(Seq<char>, Seq<char>)>, n: int)
    requires
        0 <= n <= d.len(),
        parse_descriptors_spec(d.take(n)) is None,
    ensures
        parse_descriptors_spec(d) is None,
    decreases d.len() - n,
{
    if n < d.len() {
        assert(d.take(n + 1).drop_last() =~= d.take(n));
        lemma_parse_none_extends(d, n + 1);
    } else {
        assert(d.take(n) =~= d);
    }
}

} // verus!

verus! {

/// Adding an entry under a name not yet present keeps the names unique.
pub proof fn lemma_push_unique_name<T>(v: Seq<(String, T)>, e: (String, T))
    requires
        names_of(v).no_duplicates(),
        !names_of(v).contains(e.0@),
    ensures
        names_of(v.push(e)).no_duplicates(),
{
    let n = names_of(v);
    let m = names_of(v.push(e));
    assert(m =~= n.push(e.0@));
    assert forall|a: int, b: int| 0 <= a < m.len() && 0 <= b < m.len() && a != b implies m[a]
        != m[b] by {
        if a == n.len() {
            assert(n[b] == m[b]);
        } else if b == n.len() {
            assert(n[a] == m[a]);
        }
    }
}

} // verus!
