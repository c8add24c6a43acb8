//! How the player asks the server for SponsorBlock segments: the categories
//! in use travel as their API names joined by commas, and the server reads
//! back the ones it knows.
use vstd::prelude::*;
use crate::sponsor::{api_name_of, category_named, law_api_name_round_trip, SponsorCategory};
use crate::text::{chars_of, push_str, separates, split, split_pieces, string_of, Separator};

verus! {

/// The API names of `categories`, joined by commas.
pub open spec fn joined_names(categories: Seq<SponsorCategory>) -> Seq<char>
    decreases categories.len(),
{
    if categories.len() == 0 {
        Seq::empty()
    } else if categories.len() == 1 {
        api_name_of(categories[0])
    } else {
        joined_names(categories.drop_last()) + ","@ + api_name_of(categories.last())
    }
}

/// The categories the non-empty pieces name, in order; a piece that names
/// none is passed over.
pub open spec fn named_categories(pieces: Seq<Seq<char>>) -> Seq<SponsorCategory>
    decreases pieces.len(),
{
    if pieces.len() == 0 {
        Seq::empty()
    } else {
        let rest = named_categories(pieces.drop_last());
        if pieces.last().len() > 0 {
            match category_named(pieces.last()) {
                Some(c) => rest.push(c),
                None => rest,
            }
        } else {
            rest
        }
    }
}

/// The categories a request names.
pub open spec fn categories_of_query(query: Seq<char>) -> Seq<SponsorCategory> {
    named_categories(split_pieces(query, Separator::Char(',')))
}

/// The request's text for `categories`.
pub fn categories_query(categories: &Vec<SponsorCategory>) -> (r: String)
    ensures
        r@ == joined_names(categories@),
{
    let mut out: Vec<char> = Vec::new();
    let mut i: usize = 0;
    while i < categories.len()
        invariant
            i <= categories.len(),
            out@ == joined_names(categories@.take(i as int)),
        decreases categories.len() - i,
    {
        assert(categories@.take(i + 1).drop_last() =~= categories@.take(i as int));
        if i > 0 {
            push_str(&mut out, ",");
        }
        push_str(&mut out, categories[i].api_name());
        proof {
            if i == 0 {
                assert(out@ =~= api_name_of(categories@[0]));
            }
        }
        i = i + 1;
    }
    assert(categories@.take(categories.len() as int) =~= categories@);
    string_of(out.as_slice())
}

/// The categories a request names: its comma-separated pieces, empty ones
/// and unknown names passed over.
pub fn categories_from_query(query: &str) -> (r: Vec<SponsorCategory>)
    ensures
        r@ == categories_of_query(query@),
{
    let cs = chars_of(query);
    let pieces = split(&cs, Separator::Char(','));
    let ghost all = split_pieces(query@, Separator::Char(','));
    assert(pieces@.map_values(|p: Vec<char>| p@) =~= all);
    let mut out: Vec<SponsorCategory> = Vec::new();
    let mut i: usize = 0;
    while i < pieces.len()
        invariant
            i <= pieces.len(),
            pieces@.len() == all.len(),
            forall|k: int| 0 <= k < pieces@.len() ==> #[trigger] pieces@[k]@ == all[k],
            out@ == named_categories(all.take(i as int)),
        decreases pieces.len() - i,
    {
        assert(all.take(i + 1).drop_last() =~= all.take(i as int));
        if pieces[i].len() > 0 {
            let name = string_of(pieces[i].as_slice());
            match SponsorCategory::from_api_name(name.as_str()) {
                Some(c) => out.push(c),
                None => {},
            }
        }
        i = i + 1;
    }
    assert(all.take(all.len() as int) =~= all);
    out
}

/// An API name holds no comma, and is not empty.
proof fn lemma_api_name_plain(category: SponsorCategory)
    ensures
        api_name_of(category).len() > 0,
        forall|i: int| 0 <= i < api_name_of(category).len() ==> api_name_of(category)[i] != ',',
{
    reveal_strlit("sponsor");
    reveal_strlit("selfpromo");
    reveal_strlit("interaction");
    reveal_strlit("intro");
    reveal_strlit("outro");
    reveal_strlit("preview");
    reveal_strlit("music_offtopic");
    reveal_strlit("filler");
    reveal_strlit("poi_highlight");
}

/// Appending text without a separator extends the last piece.
proof fn lemma_split_append_plain(s: Seq<char>, t: Seq<char>, sep: Separator)
    requires
        forall|i: int| 0 <= i < t.len() ==> !separates(sep, #[trigger] t[i]),
    ensures
        split_pieces(s + t, sep) == ({
            let r = split_pieces(s, sep);
            r.update(r.len() - 1, r.last() + t)
        }),
    decreases t.len(),
{
    crate::text::lemma_split_pieces_nonempty(s, sep);
    if t.len() == 0 {
        let r = split_pieces(s, sep);
        assert(s + t =~= s);
        assert(r.last() + t =~= r.last());
        assert(r.update(r.len() - 1, r.last() + t) =~= r);
    } else {
        let t0 = t.drop_last();
        lemma_split_append_plain(s, t0, sep);
        assert((s + t).drop_last() =~= s + t0);
        assert((s + t).last() == t.last());
        let r = split_pieces(s, sep);
        let r0 = r.update(r.len() - 1, r.last() + t0);
        assert(r0.last().push(t.last()) =~= r.last() + t);
        assert(r0.update(r0.len() - 1, r0.last().push(t.last())) =~= r.update(r.len() - 1, r.last() + t));
    }
}

/// The pieces of the joined names are the names.
proof fn lemma_split_joined(categories: Seq<SponsorCategory>)
    requires
        categories.len() > 0,
    ensures
        split_pieces(joined_names(categories), Separator::Char(',')) == categories.map_values(
            |c: SponsorCategory| api_name_of(c),
        ),
    decreases categories.len(),
{
    let sep = Separator::Char(',');
    let last = api_name_of(categories.last());
    lemma_api_name_plain(categories.last());
    if categories.len() == 1 {
        lemma_split_append_plain(Seq::empty(), last, sep);
        assert(Seq::<char>::empty() + last =~= last);
        assert(split_pieces(Seq::<char>::empty(), sep) =~= seq![Seq::<char>::empty()]);
        assert(Seq::<char>::empty() + last =~= last);
        assert(categories.map_values(|c: SponsorCategory| api_name_of(c)) =~= seq![last]);
    } else {
        let front = categories.drop_last();
        lemma_split_joined(front);
        let j = joined_names(front);
        let with_comma = j + ","@;
        reveal_strlit(",");
        assert(with_comma.drop_last() =~= j);
        assert(with_comma.last() == ',');
        assert(split_pieces(with_comma, sep) == split_pieces(j, sep).push(Seq::<char>::empty()));
        lemma_split_append_plain(with_comma, last, sep);
        assert(joined_names(categories) =~= with_comma + last);
        let names = categories.map_values(|c: SponsorCategory| api_name_of(c));
        let front_names = front.map_values(|c: SponsorCategory| api_name_of(c));
        assert(names =~= front_names.push(last));
        assert(Seq::<char>::empty() + last =~= last);
    }
}

/// The names of some categories name those categories.
proof fn lemma_named_names(categories: Seq<SponsorCategory>)
    ensures
        named_categories(categories.map_values(|c: SponsorCategory| api_name_of(c))) == categories,
    decreases categories.len(),
{
    if categories.len() > 0 {
        let front = categories.drop_last();
        lemma_named_names(front);
        let names = categories.map_values(|c: SponsorCategory| api_name_of(c));
        assert(names.drop_last() =~= front.map_values(|c: SponsorCategory| api_name_of(c)));
        lemma_api_name_plain(categories.last());
        law_api_name_round_trip(categories.last());
        assert(categories =~= front.push(categories.last()));
    }
}

/// The server reads back exactly the categories the player asked for.
pub proof fn law_category_query_round_trip(categories: Seq<SponsorCategory>)
    ensures
        categories_of_query(joined_names(categories)) == categories,
{
    if categories.len() == 0 {
        assert(split_pieces(Seq::<char>::empty(), Separator::Char(',')) =~= seq![Seq::<char>::empty()]);
        let one = seq![Seq::<char>::empty()];
        assert(one.drop_last() =~= Seq::<Seq<char>>::empty());
        assert(one.last().len() == 0);
        assert(named_categories(Seq::<Seq<char>>::empty()).len() == 0);
        assert(named_categories(one).len() == 0);
        assert(categories =~= Seq::<SponsorCategory>::empty());
    } else {
        lemma_split_joined(categories);
        lemma_named_names(categories);
    }
}

} // verus!
