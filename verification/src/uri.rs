//! The parameters of a query string.

use vstd::prelude::*;

verus! {

/// The pairs of names and values that the `form_urlencoded` crate reads
/// from a query string, decoded, in their order.
pub uninterp spec fn query_pairs(query: Seq<u8>) -> Seq<(Seq<char>, Seq<char>)>;

/// The pairs of a list as values.
pub open spec fn pairs_view(pairs: Seq<(String, String)>) -> Seq<(Seq<char>, Seq<char>)> {
    pairs.map_values(|pair: (String, String)| (pair.0@, pair.1@))
}

/// Reads a query string with `form_urlencoded::parse` and collects the
/// pairs it yields as owned text.
#[verifier::external_body]
fn parse_query(query: &[u8]) -> (pairs: Vec<(String, String)>)
    ensures
        pairs_view(pairs@) == query_pairs(query@),
{
    form_urlencoded::parse(query).into_owned().collect()
}

/// One parameter of a query: its name and all its values, in their order.
pub struct Param {
    pub name: String,
    pub values: Vec<String>,
}

/// A parameter as a value.
pub struct ParamView {
    pub name: Seq<char>,
    pub values: Seq<Seq<char>>,
}

/// A list of texts as values.
pub open spec fn texts_view(texts: Seq<String>) -> Seq<Seq<char>> {
    texts.map_values(|text: String| text@)
}

impl View for Param {
    type V = ParamView;

    open spec fn view(&self) -> ParamView {
        ParamView { name: self.name@, values: texts_view(self.values@) }
    }
}

/// A list of parameters as values.
pub open spec fn params_view(params: Seq<Param>) -> Seq<ParamView> {
    params.map_values(|param: Param| param@)
}

/// The position at or after `from` of the first parameter named `name`,
/// or the length of the list if there is none.
pub open spec fn position_of(params: Seq<ParamView>, name: Seq<char>, from: int) -> int
    decreases params.len() - from,
{
    if from < 0 || from >= params.len() {
        params.len() as int
    } else if params[from].name == name {
        from
    } else {
        position_of(params, name, from + 1)
    }
}

/// The parameters after one more pair: the value joins the values of the
/// first parameter of that name, or starts a new parameter at the end.
pub open spec fn with_pair(params: Seq<ParamView>, name: Seq<char>, value: Seq<char>) -> Seq<
    ParamView,
> {
    let at = position_of(params, name, 0);
    if 0 <= at < params.len() {
        params.update(at, ParamView { name: params[at].name, values: params[at].values.push(value) })
    } else {
        params.push(ParamView { name, values: seq![value] })
    }
}

/// The parameters that a list of pairs makes: one for each name, in the
/// order of first appearance, with the values of a repeated name gathered
/// in their order.
pub open spec fn grouped(pairs: Seq<(Seq<char>, Seq<char>)>) -> Seq<ParamView>
    decreases pairs.len(),
{
    if pairs.len() == 0 {
        Seq::<ParamView>::empty()
    } else {
        with_pair(grouped(pairs.drop_last()), pairs.last().0, pairs.last().1)
    }
}

/// The position of the first parameter named `name`, or the length of
/// the list if there is none.
pub fn find_param(params: &Vec<Param>, name: &String) -> (at: usize)
    ensures
        at == position_of(params_view(params@), name@, 0),
        at <= params@.len(),
{
    let ghost views = params_view(params@);
    let mut i: usize = 0;
    while i < params.len()
        invariant
            i <= params@.len(),
            views == params_view(params@),
            position_of(views, name@, 0) == position_of(views, name@, i as int),
        decreases params@.len() - i,
    {
        if params[i].name == *name {
            assert(views[i as int].name == name@);
            return i;
        }
        assert(views[i as int].name != name@);
        i += 1;
    }
    i
}

/// Adds one pair to the parameters.
pub fn add_pair(params: &mut Vec<Param>, name: String, value: String)
    ensures
        params_view(final(params)@) == with_pair(params_view(old(params)@), name@, value@),
{
    let ghost before = params_view(params@);
    let at = find_param(params, &name);
    if at < params.len() {
        let ghost entry = params@[at as int];
        let mut values: Vec<String> = Vec::new();
        let mut k: usize = 0;
        while k < params[at].values.len()
            invariant
                at < params@.len(),
                params@ == old(params)@,
                k <= params@[at as int].values@.len(),
                values@.len() == k,
                forall|j: int| 0 <= j < k ==> (#[trigger] values@[j])@ == params@[at as int].values@[j]@,
            decreases params@[at as int].values@.len() - k,
        {
            values.push(params[at].values[k].clone());
            k += 1;
        }
        let ghost kept = texts_view(values@);
        assert(kept =~= texts_view(entry.values@));
        values.push(value);
        assert(texts_view(values@) =~= kept.push(value@));
        let renamed = params[at].name.clone();
        params.set(at, Param { name: renamed, values });
        assert(params_view(params@) =~= before.update(
            at as int,
            ParamView { name: before[at as int].name, values: before[at as int].values.push(value@) },
        ));
    } else {
        let mut values: Vec<String> = Vec::new();
        values.push(value);
        assert(texts_view(values@) =~= seq![value@]);
        params.push(Param { name, values });
        assert(params_view(params@) =~= before.push(
            ParamView { name: name@, values: seq![value@] },
        ));
    }
}

/// The parameters that a list of pairs makes.
pub fn group_pairs(pairs: Vec<(String, String)>) -> (params: Vec<Param>)
    ensures
        params_view(params@) == grouped(pairs_view(pairs@)),
{
    let ghost all = pairs_view(pairs@);
    let mut params: Vec<Param> = Vec::new();
    let mut i: usize = 0;
    assert(all.subrange(0, 0) =~= Seq::<(Seq<char>, Seq<char>)>::empty());
    assert(params_view(params@) =~= Seq::<ParamView>::empty());
    while i < pairs.len()
        invariant
            i <= pairs@.len(),
            all == pairs_view(pairs@),
            params_view(params@) == grouped(all.subrange(0, i as int)),
        decreases pairs@.len() - i,
    {
        proof {
            let next = all.subrange(0, i + 1);
            assert(next.drop_last() =~= all.subrange(0, i as int));
            assert(next.last() == (pairs@[i as int].0@, pairs@[i as int].1@));
        }
        add_pair(&mut params, pairs[i].0.clone(), pairs[i].1.clone());
        i += 1;
    }
    assert(all.subrange(0, pairs@.len() as int) =~= all);
    params
}

/// The parameters of a query string: each name with the list of its
/// values, repeated names gathered.
pub fn params(query: &[u8]) -> (params: Vec<Param>)
    ensures
        params_view(params@) == grouped(query_pairs(query@)),
{
    group_pairs(parse_query(query))
}

} // verus!
