//! The ids by which a client names what it wants to browse.
//!
//! | id                      | names                                       |
//! |-------------------------|---------------------------------------------|
//! | `/{category}`           | a category                                  |
//! | `/{category}/`          | the albums filed directly under a category  |
//! | `/{category}/{position}`| the subcategory at a position, from zero    |
//! | `{catalog}`             | an album                                    |
//! | `{catalog}/{number}`    | a track of an album, counted from one       |

use crate::text::{chars_of, decimal, find, find_from, lemma_find_is, push_decimal};
use vstd::prelude::*;

verus! {

/// What the id of a directory names.
pub enum Node {
    Category { name: Seq<char> },
    Bucket { name: Seq<char> },
    Subcategory { name: Seq<char>, position: Seq<char> },
    Album { catalog: Seq<char> },
}

/// Reads the id of a directory. An id that begins with `/` names a category
/// or a part of one: the category's name runs up to the next `/`, what follows
/// that up to a further `/` is the position of a subcategory, and anything
/// after is ignored. Any other id is the catalog of an album.
pub open spec fn decode(id: Seq<char>) -> Node {
    if id.len() > 0 && id[0] == '/' {
        let path = id.skip(1);
        let cut = find(path, '/');
        let name = path.take(cut);
        if cut == path.len() {
            Node::Category { name }
        } else {
            let rest = path.skip(cut + 1);
            let position = rest.take(find(rest, '/'));
            if position.len() == 0 {
                Node::Bucket { name }
            } else {
                Node::Subcategory { name, position }
            }
        }
    } else {
        Node::Album { catalog: id }
    }
}

/// The id of the category `name`.
pub open spec fn category_id(name: Seq<char>) -> Seq<char> {
    seq!['/'] + name
}

/// The id of the albums filed directly under the category `name`.
pub open spec fn bucket_id(name: Seq<char>) -> Seq<char> {
    seq!['/'] + name + seq!['/']
}

/// The id of the subcategory at `position` of the category `name`.
pub open spec fn subcategory_id(name: Seq<char>, position: nat) -> Seq<char> {
    seq!['/'] + name + seq!['/'] + decimal(position)
}

/// The id of track `number` of the album `catalog`.
pub open spec fn track_id(catalog: Seq<char>, number: nat) -> Seq<char> {
    catalog + seq!['/'] + decimal(number)
}

/// What the id of a directory names, as parts of the id itself.
pub enum Address<'a> {
    Category { name: &'a str },
    Bucket { name: &'a str },
    Subcategory { name: &'a str, position: &'a str },
    Album { catalog: &'a str },
}

impl<'a> View for Address<'a> {
    type V = Node;

    open spec fn view(&self) -> Node {
        match *self {
            Address::Category { name } => Node::Category { name: name@ },
            Address::Bucket { name } => Node::Bucket { name: name@ },
            Address::Subcategory { name, position } => Node::Subcategory {
                name: name@,
                position: position@,
            },
            Address::Album { catalog } => Node::Album { catalog: catalog@ },
        }
    }
}

/// Reads the id of a directory.
pub fn parse_id<'a>(id: &'a str) -> (r: Address<'a>)
    ensures
        r@ == decode(id@),
{
    let chars = chars_of(id);
    let len: usize = chars.len();
    if len == 0 || chars[0] != '/' {
        return Address::Album { catalog: id };
    }
    let cut: usize = find_from(&chars, 1, '/');
    let name = id.substring_char(1, cut);
    let ghost path = id@.skip(1);
    assert(name@ =~= path.take(cut - 1));
    if cut == len {
        return Address::Category { name };
    }
    let end: usize = find_from(&chars, cut + 1, '/');
    let position = id.substring_char(cut + 1, end);
    proof {
        let rest = path.skip(cut as int);
        assert(rest =~= id@.skip(cut + 1));
        assert(position@ =~= rest.take(end - cut - 1));
    }
    if end == cut + 1 {
        Address::Bucket { name }
    } else {
        Address::Subcategory { name, position }
    }
}

/// Writes the id of the category `name`.
pub fn make_category_id(name: &str) -> (id: String)
    ensures
        id@ == category_id(name@),
{
    proof {
        reveal_strlit("/");
    }
    let mut id = String::from_str("/");
    id.append(name);
    assert(id@ =~= category_id(name@));
    id
}

/// Writes the id of the albums filed directly under the category `name`.
pub fn make_bucket_id(name: &str) -> (id: String)
    ensures
        id@ == bucket_id(name@),
{
    proof {
        reveal_strlit("/");
    }
    let mut id = String::from_str("/");
    id.append(name);
    id.append("/");
    assert(id@ =~= bucket_id(name@));
    id
}

/// Writes the id of the subcategory at `position` of the category `name`.
pub fn make_subcategory_id(name: &str, position: usize) -> (id: String)
    ensures
        id@ == subcategory_id(name@, position as nat),
{
    proof {
        reveal_strlit("/");
    }
    let mut id = String::from_str("/");
    id.append(name);
    id.append("/");
    push_decimal(&mut id, position);
    assert(id@ =~= subcategory_id(name@, position as nat));
    id
}

/// Writes the id of track `number` of the album `catalog`.
pub fn make_track_id(catalog: &str, number: usize) -> (id: String)
    ensures
        id@ == track_id(catalog@, number as nat),
{
    proof {
        reveal_strlit("/");
    }
    let mut id = String::from_str(catalog);
    id.append("/");
    push_decimal(&mut id, number);
    assert(id@ =~= track_id(catalog@, number as nat));
    id
}

/// A decimal numeral is not empty and holds no `/`.
pub proof fn decimal_holds_no_slash(n: nat)
    ensures
        decimal(n).len() > 0,
        !decimal(n).contains('/'),
    decreases n,
{
    if n >= 10 {
        decimal_holds_no_slash(n / 10);
        let s = decimal(n);
        if s.contains('/') {
            let j = choose|j: int| 0 <= j < s.len() && s[j] == '/';
            if j < s.len() - 1 {
                assert(decimal(n / 10)[j] == '/');
            }
        }
    }
}

/// The id that was written for a category is read as that category, as long
/// as the category's name holds no `/`.
pub proof fn category_id_round_trip(name: Seq<char>)
    requires
        !name.contains('/'),
    ensures
        decode(category_id(name)) == (Node::Category { name }),
{
    let id = category_id(name);
    let path = id.skip(1);
    assert(path =~= name);
    assert forall|j: int| 0 <= j < name.len() implies name[j] != '/' by {
        assert(name.contains(name[j]));
    }
    lemma_find_is(path, '/', name.len() as int);
    assert(path.take(path.len() as int) =~= name);
}

/// The id that was written for the albums directly under a category is read as
/// such, as long as the category's name holds no `/`.
pub proof fn bucket_id_round_trip(name: Seq<char>)
    requires
        !name.contains('/'),
    ensures
        decode(bucket_id(name)) == (Node::Bucket { name }),
{
    let id = bucket_id(name);
    let path = id.skip(1);
    assert(path =~= name + seq!['/']);
    assert forall|j: int| 0 <= j < name.len() implies path[j] != '/' by {
        assert(name.contains(name[j]));
    }
    lemma_find_is(path, '/', name.len() as int);
    assert(path.take(name.len() as int) =~= name);
    let rest = path.skip(name.len() as int + 1);
    assert(rest =~= Seq::<char>::empty());
    assert(rest.take(find(rest, '/')) =~= Seq::<char>::empty());
}

/// The id that was written for a subcategory is read as the same category and
/// the numeral of the same position, as long as the category's name holds no
/// `/`.
pub proof fn subcategory_id_round_trip(name: Seq<char>, position: nat)
    requires
        !name.contains('/'),
    ensures
        decode(subcategory_id(name, position)) == (Node::Subcategory {
            name,
            position: decimal(position),
        }),
{
    let id = subcategory_id(name, position);
    let numeral = decimal(position);
    decimal_holds_no_slash(position);
    let path = id.skip(1);
    assert(path =~= name + seq!['/'] + numeral);
    assert forall|j: int| 0 <= j < name.len() implies path[j] != '/' by {
        assert(name.contains(name[j]));
    }
    lemma_find_is(path, '/', name.len() as int);
    assert(path.take(name.len() as int) =~= name);
    let rest = path.skip(name.len() as int + 1);
    assert(rest =~= numeral);
    assert forall|j: int| 0 <= j < numeral.len() implies numeral[j] != '/' by {
        assert(numeral.contains(numeral[j]));
    }
    lemma_find_is(rest, '/', numeral.len() as int);
    assert(rest.take(numeral.len() as int) =~= numeral);
}

/// Whether `id` has the form of a track's id: it holds exactly one `/`.
pub open spec fn names_track(id: Seq<char>) -> bool {
    let cut = find(id, '/');
    cut < id.len() && find(id.skip(cut + 1), '/') == id.len() - cut - 1
}

/// Says whether `id` has the form of a track's id.
pub fn is_track_id(id: &str) -> (r: bool)
    ensures
        r == names_track(id@),
{
    let chars = chars_of(id);
    let cut: usize = find_from(&chars, 0, '/');
    assert(chars@.skip(0) =~= chars@);
    if cut == chars.len() {
        return false;
    }
    let end: usize = find_from(&chars, cut + 1, '/');
    end == chars.len()
}

/// The id that was written for a track has the form of a track's id, as long
/// as the album's catalog holds no `/`.
pub proof fn track_id_names_track(catalog: Seq<char>, number: nat)
    requires
        !catalog.contains('/'),
    ensures
        names_track(track_id(catalog, number)),
{
    let id = track_id(catalog, number);
    let numeral = decimal(number);
    decimal_holds_no_slash(number);
    assert forall|j: int| 0 <= j < catalog.len() implies id[j] != '/' by {
        assert(catalog.contains(catalog[j]));
    }
    lemma_find_is(id, '/', catalog.len() as int);
    let rest = id.skip(catalog.len() as int + 1);
    assert(rest =~= numeral);
    assert forall|j: int| 0 <= j < numeral.len() implies numeral[j] != '/' by {
        assert(numeral.contains(numeral[j]));
    }
    lemma_find_is(rest, '/', numeral.len() as int);
}

} // verus!
