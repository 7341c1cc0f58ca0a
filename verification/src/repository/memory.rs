//! A repository that keeps its documents in memory.
//!
//! It follows the same rules as the repository in front of the document
//! store: names are unique at creation, identifiers are 24 hexadecimal
//! digits, and a malformed or unknown identifier is answered with
//! `NotFound`. Identifiers are handed out by counting.

use vstd::prelude::*;
use vstd::string::StringExecFns;
use crate::models::{copy_flags, copy_opt_text, Environment, EnvironmentModel, FeatureFlag, FlagModel, RuleModel};
use crate::repository::{canonical_id, delete_outcome, document_id, duplicate_message, ensure_unique, get_outcome, is_hex_digit, is_object_id, lower_hex, object_id_error_text, update_outcome, ErrorKind, RepositoryError};
use crate::text::{opt_text, text_eq};

verus! {

/// What a repository needs of the documents it keeps: a name, and a copy
/// that carries the identifier under which the document is kept.
pub trait Document: View + Sized {
    /// The name by which documents are unique.
    spec fn name_of(model: Self::V) -> Seq<char>;

    /// The document with its identifier set, and nothing else changed.
    spec fn identified(model: Self::V, id: Seq<char>) -> Self::V;

    /// Setting the identifier leaves the name as it is.
    proof fn lemma_identified_keeps_name(model: Self::V, id: Seq<char>)
        ensures
            Self::name_of(Self::identified(model, id)) == Self::name_of(model),
    ;

    /// Whether the document has the given name.
    fn has_name(&self, name: &str) -> (r: bool)
        ensures
            r == (Self::name_of(self@) == name@),
    ;

    /// The document's name.
    fn name_text(&self) -> (r: String)
        ensures
            r@ == Self::name_of(self@),
    ;

    /// A copy of the document.
    fn duplicate(&self) -> (r: Self)
        ensures
            r@ == self@,
    ;

    /// A copy of the document with its identifier set.
    fn identified_copy(&self, id: &str) -> (r: Self)
        ensures
            r@ == Self::identified(self@, id@),
    ;
}

impl Document for FeatureFlag {
    open spec fn name_of(model: FlagModel) -> Seq<char> {
        model.name
    }

    open spec fn identified(model: FlagModel, id: Seq<char>) -> FlagModel {
        FlagModel { id: Some(id), ..model }
    }

    proof fn lemma_identified_keeps_name(model: FlagModel, id: Seq<char>) {
    }

    fn has_name(&self, name: &str) -> (r: bool) {
        text_eq(self.name.as_str(), name)
    }

    fn name_text(&self) -> (r: String) {
        self.name.clone()
    }

    fn duplicate(&self) -> (r: Self) {
        self.clone()
    }

    fn identified_copy(&self, id: &str) -> (r: Self) {
        let mut copy = self.clone();
        copy.id = Some(id.to_owned());
        copy
    }
}

impl Document for Environment {
    open spec fn name_of(model: EnvironmentModel) -> Seq<char> {
        model.name
    }

    open spec fn identified(model: EnvironmentModel, id: Seq<char>) -> EnvironmentModel {
        EnvironmentModel { id: Some(id), ..model }
    }

    proof fn lemma_identified_keeps_name(model: EnvironmentModel, id: Seq<char>) {
    }

    fn has_name(&self, name: &str) -> (r: bool) {
        text_eq(self.name.as_str(), name)
    }

    fn name_text(&self) -> (r: String) {
        self.name.clone()
    }

    fn duplicate(&self) -> (r: Self) {
        Environment {
            id: copy_opt_text(&self.id),
            name: self.name.clone(),
            flags: copy_flags(&self.flags),
        }
    }

    fn identified_copy(&self, id: &str) -> (r: Self) {
        Environment {
            id: Some(id.to_owned()),
            name: self.name.clone(),
            flags: copy_flags(&self.flags),
        }
    }
}

/// The hexadecimal digit for a number below 16, in lower case.
pub open spec fn hex_char(d: nat) -> char {
    if d == 0 {
        '0'
    } else if d == 1 {
        '1'
    } else if d == 2 {
        '2'
    } else if d == 3 {
        '3'
    } else if d == 4 {
        '4'
    } else if d == 5 {
        '5'
    } else if d == 6 {
        '6'
    } else if d == 7 {
        '7'
    } else if d == 8 {
        '8'
    } else if d == 9 {
        '9'
    } else if d == 10 {
        'a'
    } else if d == 11 {
        'b'
    } else if d == 12 {
        'c'
    } else if d == 13 {
        'd'
    } else if d == 14 {
        'e'
    } else {
        'f'
    }
}

/// The last `width` hexadecimal digits of a number, most significant first.
pub open spec fn hex_digits(k: nat, width: nat) -> Seq<char>
    decreases width,
{
    if width == 0 {
        Seq::empty()
    } else {
        hex_digits(k / 16, (width - 1) as nat).push(hex_char(k % 16))
    }
}

/// Whether a number can be written with `width` hexadecimal digits.
pub open spec fn fits(k: nat, width: nat) -> bool
    decreases width,
{
    if width == 0 {
        k == 0
    } else {
        fits(k / 16, (width - 1) as nat)
    }
}

/// The identifier with the given number: the number in 24 hexadecimal
/// digits.
pub open spec fn id_text(k: nat) -> Seq<char> {
    hex_digits(k, 24)
}

/// The digits of a number are as many as asked for, all hexadecimal and in
/// lower case.
pub proof fn lemma_hex_digits_shape(k: nat, width: nat)
    ensures
        hex_digits(k, width).len() == width,
        forall|i: int|
            0 <= i < width ==> is_hex_digit(#[trigger] hex_digits(k, width)[i]) && lower_hex(
                hex_digits(k, width)[i],
            ) == hex_digits(k, width)[i],
    decreases width,
{
    if width > 0 {
        lemma_hex_digits_shape(k / 16, (width - 1) as nat);
    }
}

/// Two numbers that fit the width and have the same digits are the same
/// number.
pub proof fn lemma_hex_digits_injective(a: nat, b: nat, width: nat)
    requires
        fits(a, width),
        fits(b, width),
        hex_digits(a, width) == hex_digits(b, width),
    ensures
        a == b,
    decreases width,
{
    if width > 0 {
        let da = hex_digits(a / 16, (width - 1) as nat);
        let db = hex_digits(b / 16, (width - 1) as nat);
        assert(da.push(hex_char(a % 16)).drop_last() =~= da);
        assert(db.push(hex_char(b % 16)).drop_last() =~= db);
        assert(da.push(hex_char(a % 16)).last() == hex_char(a % 16));
        assert(db.push(hex_char(b % 16)).last() == hex_char(b % 16));
        lemma_hex_digits_injective(a / 16, b / 16, (width - 1) as nat);
    }
}

/// Every identifier that is handed out is well formed and canonical, and
/// two different numbers give two different identifiers.
pub proof fn lemma_id_text(a: u64, b: u64)
    ensures
        is_object_id(id_text(a as nat)),
        canonical_id(id_text(a as nat)) == id_text(a as nat),
        a != b ==> id_text(a as nat) != id_text(b as nat),
{
    lemma_hex_digits_shape(a as nat, 24);
    assert(canonical_id(id_text(a as nat)) =~= id_text(a as nat));
    reveal_with_fuel(fits, 25);
    assert(fits(a as nat, 24));
    assert(fits(b as nat, 24));
    if a != b && id_text(a as nat) == id_text(b as nat) {
        lemma_hex_digits_injective(a as nat, b as nat, 24);
    }
}

/// The text of one hexadecimal digit.
fn digit_text(d: u64) -> (r: &'static str)
    requires
        d < 16,
    ensures
        r@ == seq![hex_char(d as nat)],
{
    proof {
        reveal_strlit("0");
        reveal_strlit("1");
        reveal_strlit("2");
        reveal_strlit("3");
        reveal_strlit("4");
        reveal_strlit("5");
        reveal_strlit("6");
        reveal_strlit("7");
        reveal_strlit("8");
        reveal_strlit("9");
        reveal_strlit("a");
        reveal_strlit("b");
        reveal_strlit("c");
        reveal_strlit("d");
        reveal_strlit("e");
        reveal_strlit("f");
    }
    let r = if d == 0 {
        "0"
    } else if d == 1 {
        "1"
    } else if d == 2 {
        "2"
    } else if d == 3 {
        "3"
    } else if d == 4 {
        "4"
    } else if d == 5 {
        "5"
    } else if d == 6 {
        "6"
    } else if d == 7 {
        "7"
    } else if d == 8 {
        "8"
    } else if d == 9 {
        "9"
    } else if d == 10 {
        "a"
    } else if d == 11 {
        "b"
    } else if d == 12 {
        "c"
    } else if d == 13 {
        "d"
    } else if d == 14 {
        "e"
    } else {
        "f"
    };
    assert(r@ =~= seq![hex_char(d as nat)]);
    r
}

/// Writes the identifier with the given number.
pub fn format_id(k: u64) -> (r: String)
    ensures
        r@ == id_text(k as nat),
{
    let mut text = String::new();
    let mut rest: u64 = k;
    let mut j: usize = 0;
    assert(hex_digits(k as nat, 24) =~= hex_digits(rest as nat, 24) + text@);
    while j < 24
        invariant
            j <= 24,
            hex_digits(k as nat, 24) == hex_digits(rest as nat, (24 - j) as nat) + text@,
        decreases 24 - j,
    {
        let digit = digit_text(rest % 16);
        let ghost before = text@;
        let ghost higher = hex_digits((rest / 16) as nat, (24 - j - 1) as nat);
        text = digit.to_owned().concat(text.as_str());
        proof {
            assert(hex_digits(rest as nat, (24 - j) as nat) == higher.push(
                hex_char((rest % 16) as nat),
            ));
            assert(higher.push(hex_char((rest % 16) as nat)) + before =~= higher + text@);
        }
        rest = rest / 16;
        j += 1;
    }
    assert(hex_digits(rest as nat, 0) + text@ =~= text@);
    text
}

/// A document as the repository keeps it: under the identifier that its
/// number spells.
pub struct Stored<T> {
    pub number: u64,
    pub id: String,
    pub document: T,
}

/// A repository that keeps its documents in memory, in the order in which
/// they were created.
pub struct MemoryRepository<T> {
    pub entity: String,
    pub stored: Vec<Stored<T>>,
    pub next: u64,
}

/// Whether the entry at `i` is kept under the identifier `id`.
pub open spec fn entry_under<V>(entries: Seq<(Seq<char>, V)>, id: Seq<char>, i: int) -> bool {
    0 <= i < entries.len() && entries[i].0 == id
}

/// Whether some entry is kept under the identifier `id`.
pub open spec fn has_id<V>(entries: Seq<(Seq<char>, V)>, id: Seq<char>) -> bool {
    exists|i: int| entry_under(entries, id, i)
}

/// Whether no two entries are kept under the same identifier.
pub open spec fn ids_distinct<V>(entries: Seq<(Seq<char>, V)>) -> bool {
    forall|i: int, j: int| 0 <= i < j < entries.len() ==> entries[i].0 != entries[j].0
}

impl<T: Document> View for MemoryRepository<T> {
    type V = Seq<(Seq<char>, T::V)>;

    /// The documents with their identifiers, oldest first.
    open spec fn view(&self) -> Seq<(Seq<char>, T::V)> {
        self.stored@.map_values(|s: Stored<T>| (s.id@, s.document@))
    }
}

impl<T: Document> MemoryRepository<T> {
    /// Whether some document has the given name.
    pub open spec fn named(entries: Seq<(Seq<char>, T::V)>, name: Seq<char>) -> bool {
        exists|i: int| 0 <= i < entries.len() && T::name_of(#[trigger] entries[i].1) == name
    }

    /// Every document is kept under the identifier of its number, and every
    /// number was handed out already.
    pub open spec fn well_formed(&self) -> bool {
        forall|i: int|
            0 <= i < self.stored@.len() ==> (#[trigger] self.stored@[i]).number < self.next
                && self.stored@[i].id@ == id_text(self.stored@[i].number as nat)
                && forall|j: int|
                0 <= j < self.stored@.len() && j != i ==> self.stored@[j].number
                    != self.stored@[i].number
    }

    /// In a well-formed repository no two documents share an identifier.
    pub proof fn lemma_ids_distinct(&self)
        requires
            self.well_formed(),
        ensures
            ids_distinct(self@),
    {
        assert forall|i: int, j: int| 0 <= i < j < self@.len() implies self@[i].0 != self@[j].0 by {
            let a = self.stored@[i];
            let b = self.stored@[j];
            assert(a.number != b.number);
            lemma_id_text(a.number, b.number);
        }
    }

    /// An empty repository. `entity` is the noun that messages use for its
    /// documents.
    pub fn new(entity: &str) -> (r: Self)
        ensures
            r@ == Seq::<(Seq<char>, T::V)>::empty(),
            r.entity@ == entity@,
            r.next == 0,
            r.well_formed(),
    {
        let r = MemoryRepository { entity: entity.to_owned(), stored: Vec::new(), next: 0 };
        assert(r@ =~= Seq::<(Seq<char>, T::V)>::empty());
        r
    }

    /// The position of the document under a canonical identifier.
    fn position(&self, id: &str) -> (r: Option<usize>)
        ensures
            match r {
                Some(i) => entry_under(self@, id@, i as int),
                None => !has_id(self@, id@),
            },
    {
        let mut i: usize = 0;
        while i < self.stored.len()
            invariant
                i <= self.stored.len(),
                forall|j: int| 0 <= j < i ==> self@[j].0 != id@,
            decreases self.stored.len() - i,
        {
            if text_eq(self.stored[i].id.as_str(), id) {
                return Some(i);
            }
            i += 1;
        }
        None
    }

    /// What a search keeps: the documents of the given name, or every
    /// document where no name is given.
    pub open spec fn wanted(name: Option<Seq<char>>) -> spec_fn((Seq<char>, T::V)) -> bool {
        |e: (Seq<char>, T::V)|
            match name {
                Some(n) => T::name_of(e.1) == n,
                None => true,
            }
    }

    /// The documents of a sequence of entries, without their identifiers.
    pub open spec fn documents(entries: Seq<(Seq<char>, T::V)>) -> Seq<T::V> {
        entries.map_values(|e: (Seq<char>, T::V)| e.1)
    }

    /// Copies of the documents that have the given name, or of all
    /// documents where no name is given, oldest first. Finding none is no
    /// error.
    pub fn find(&self, name: Option<&str>) -> (r: Vec<T>)
        ensures
            r@.map_values(|d: T| d@) == Self::documents(
                self@.filter(Self::wanted(opt_text(name))),
            ),
    {
        let ghost keep = Self::wanted(opt_text(name));
        let ghost all = self@;
        let mut out: Vec<T> = Vec::new();
        let mut i: usize = 0;
        proof {
            reveal(Seq::filter);
            assert(all.take(0).filter(keep) =~= Seq::<(Seq<char>, T::V)>::empty());
            assert(out@.map_values(|d: T| d@) =~= Self::documents(all.take(0).filter(keep)));
        }
        while i < self.stored.len()
            invariant
                i <= self.stored.len(),
                all == self@,
                keep == Self::wanted(opt_text(name)),
                out@.map_values(|d: T| d@) == Self::documents(all.take(i as int).filter(keep)),
            decreases self.stored.len() - i,
        {
            proof {
                reveal(Seq::filter);
                assert(all.take(i + 1).drop_last() =~= all.take(i as int));
                assert(all.take(i + 1).last() == all[i as int]);
            }
            let ghost before = out@;
            let entry = &self.stored[i];
            let take = match name {
                Some(n) => entry.document.has_name(n),
                None => true,
            };
            if take {
                out.push(entry.document.duplicate());
                assert(out@.map_values(|d: T| d@) =~= before.map_values(|d: T| d@).push(
                    entry.document@,
                ));
                assert(Self::documents(all.take(i + 1).filter(keep)) =~= Self::documents(
                    all.take(i as int).filter(keep),
                ).push(entry.document@));
            }
            i += 1;
        }
        assert(all.take(self.stored.len() as int) =~= all);
        out
    }

    /// Inserts a copy of `entity` under a new identifier and answers the
    /// identifier, unless a document of the same name is there already:
    /// then nothing changes and the answer is `AlreadyExists`.
    pub fn create(&mut self, entity: &T) -> (r: Result<String, RepositoryError>)
        requires
            old(self).well_formed(),
            old(self).next < u64::MAX,
        ensures
            final(self).well_formed(),
            final(self).entity == old(self).entity,
            match r {
                Ok(id) => {
                    &&& !Self::named(old(self)@, T::name_of(entity@))
                    &&& id@ == id_text(old(self).next as nat)
                    &&& !has_id(old(self)@, id@)
                    &&& final(self)@ == old(self)@.push((id@, T::identified(entity@, id@)))
                    &&& final(self).next == old(self).next + 1
                },
                Err(e) => {
                    &&& Self::named(old(self)@, T::name_of(entity@))
                    &&& e.kind == ErrorKind::AlreadyExists
                    &&& e.message@ == duplicate_message(old(self).entity@, T::name_of(entity@))
                    &&& final(self)@ == old(self)@
                    &&& final(self).next == old(self).next
                },
            },
    {
        let name = entity.name_text();
        let found = self.find(Some(name.as_str()));
        proof {
            let keep = Self::wanted(Some(name@));
            lemma_filter_nonempty(self@, keep);
            assert(found@.len() == found@.map_values(|d: T| d@).len());
            if Self::named(self@, name@) {
                let i = choose|i: int|
                    0 <= i < self@.len() && T::name_of(#[trigger] self@[i].1) == name@;
                assert(keep(self@[i]));
            }
            if exists|i: int| 0 <= i < self@.len() && keep(#[trigger] self@[i]) {
                let i = choose|i: int| 0 <= i < self@.len() && keep(#[trigger] self@[i]);
                assert(T::name_of(self@[i].1) == name@);
            }
        }
        let existing: Result<Vec<T>, RepositoryError> = Ok(found);
        match ensure_unique(self.entity.as_str(), name.as_str(), &existing) {
            Err(e) => Err(e),
            Ok(_) => {
                let id = format_id(self.next);
                let document = entity.identified_copy(id.as_str());
                proof {
                    self.lemma_ids_below_next(id@);
                }
                self.stored.push(Stored { number: self.next, id: id.clone(), document });
                self.next = self.next + 1;
                assert(self@ =~= old(self)@.push((id@, T::identified(entity@, id@))));
                Ok(id)
            },
        }
    }

    /// Answers a copy of the document under `id`, or `NotFound` where the
    /// identifier is malformed or names no document.
    pub fn get(&self, id: &str) -> (r: Result<T, RepositoryError>)
        ensures
            match r {
                Ok(document) => is_object_id(id@) && exists|i: int|
                    entry_under(self@, canonical_id(id@), i) && document@ == self@[i].1,
                Err(e) => e.kind == ErrorKind::NotFound && if is_object_id(id@) {
                    !has_id(self@, canonical_id(id@)) && e.message@ == "Entity not found"@
                } else {
                    e.message@ == object_id_error_text(id@)
                },
            },
    {
        match document_id(id) {
            Err(e) => Err(e),
            Ok(hex) => match self.position(hex.as_str()) {
                Some(i) => get_outcome(Ok(Some(self.stored[i].document.duplicate()))),
                None => get_outcome(Ok(None)),
            },
        }
    }

    /// Replaces the document under `id` by a copy of `entity`, whole, and
    /// leaves every other document as it is. A malformed identifier, or one
    /// that names no document, changes nothing and is answered with
    /// `NotFound`.
    pub fn update(&mut self, id: &str, entity: &T) -> (r: Result<(), RepositoryError>)
        requires
            old(self).well_formed(),
        ensures
            final(self).well_formed(),
            final(self).entity == old(self).entity,
            final(self).next == old(self).next,
            match r {
                Ok(_) => is_object_id(id@) && exists|i: int|
                    entry_under(old(self)@, canonical_id(id@), i) && final(self)@ == old(
                        self,
                    )@.update(i, (canonical_id(id@), T::identified(entity@, canonical_id(id@)))),
                Err(e) => final(self)@ == old(self)@ && e.kind == ErrorKind::NotFound
                    && if is_object_id(id@) {
                    !has_id(old(self)@, canonical_id(id@)) && e.message@ == "Entity not found"@
                } else {
                    e.message@ == object_id_error_text(id@)
                },
            },
    {
        match document_id(id) {
            Err(e) => Err(e),
            Ok(hex) => match self.position(hex.as_str()) {
                Some(i) => {
                    let number = self.stored[i].number;
                    let document = entity.identified_copy(hex.as_str());
                    self.stored.set(i, Stored { number, id: hex, document });
                    assert(self@ =~= old(self)@.update(
                        i as int,
                        (canonical_id(id@), T::identified(entity@, canonical_id(id@))),
                    ));
                    update_outcome(Ok(1))
                },
                None => update_outcome(Ok(0)),
            },
        }
    }

    /// Removes the document under `id` and leaves every other document as
    /// it is. A malformed identifier, or one that names no document (as in
    /// a second removal), changes nothing and is answered with `NotFound`.
    pub fn delete(&mut self, id: &str) -> (r: Result<(), RepositoryError>)
        requires
            old(self).well_formed(),
        ensures
            final(self).well_formed(),
            final(self).entity == old(self).entity,
            final(self).next == old(self).next,
            match r {
                Ok(_) => is_object_id(id@) && exists|i: int|
                    entry_under(old(self)@, canonical_id(id@), i) && final(self)@ == old(
                        self,
                    )@.remove(i),
                Err(e) => final(self)@ == old(self)@ && e.kind == ErrorKind::NotFound
                    && if is_object_id(id@) {
                    !has_id(old(self)@, canonical_id(id@)) && e.message@ == "Entity not found"@
                } else {
                    e.message@ == object_id_error_text(id@)
                },
            },
    {
        match document_id(id) {
            Err(e) => Err(e),
            Ok(hex) => match self.position(hex.as_str()) {
                Some(i) => {
                    let removed = self.stored.remove(i);
                    assert(self@ =~= old(self)@.remove(i as int));
                    delete_outcome(Ok(Some(removed)))
                },
                None => {
                    let nothing: Result<Option<Stored<T>>, String> = Ok(None);
                    delete_outcome(nothing)
                },
            },
        }
    }

    /// No document is kept under the identifier that is handed out next.
    proof fn lemma_ids_below_next(&self, id: Seq<char>)
        requires
            self.well_formed(),
            id == id_text(self.next as nat),
        ensures
            !has_id(self@, id),
    {
        if has_id(self@, id) {
            let i = choose|i: int| entry_under(self@, id, i);
            let taken = self.stored@[i];
            assert(taken.number < self.next);
            lemma_id_text(taken.number, self.next);
        }
    }
} // impl

/// Some element of a sequence passes a filter exactly when the filtered
/// sequence is not empty.
pub proof fn lemma_filter_nonempty<A>(s: Seq<A>, keep: spec_fn(A) -> bool)
    ensures
        s.filter(keep).len() > 0 <==> exists|i: int| 0 <= i < s.len() && keep(#[trigger] s[i]),
    decreases s.len(),
{
    reveal(Seq::filter);
    if s.len() > 0 {
        let rest = s.drop_last();
        lemma_filter_nonempty(rest, keep);
        if exists|i: int| 0 <= i < rest.len() && keep(#[trigger] rest[i]) {
            let i = choose|i: int| 0 <= i < rest.len() && keep(#[trigger] rest[i]);
            assert(keep(s[i]));
        }
        if exists|i: int| 0 <= i < s.len() && keep(#[trigger] s[i]) {
            let i = choose|i: int| 0 <= i < s.len() && keep(#[trigger] s[i]);
            if i < rest.len() {
                assert(keep(rest[i]));
            } else {
                assert(keep(s.last()));
            }
        }
        if keep(s.last()) {
            assert(keep(s[s.len() - 1]));
        }
    }
}

/// After a document was created under a fresh identifier, that identifier
/// names exactly this document, as it was given but for its identifier, and
/// every other identifier names what it named before.
pub proof fn lemma_created_is_found<T: Document>(
    entries: Seq<(Seq<char>, T::V)>,
    entity: T::V,
    id: Seq<char>,
)
    requires
        !has_id(entries, id),
    ensures
        ({
            let after = entries.push((id, T::identified(entity, id)));
            &&& has_id(after, id)
            &&& forall|i: int| entry_under(after, id, i) ==> after[i].1 == T::identified(entity, id)
            &&& forall|other: Seq<char>, i: int|
                other != id ==> (entry_under(after, other, i) <==> entry_under(entries, other, i))
            &&& forall|i: int| 0 <= i < entries.len() ==> after[i] == entries[i]
            &&& ids_distinct(entries) ==> ids_distinct(after)
        }),
{
    let after = entries.push((id, T::identified(entity, id)));
    assert(entry_under(after, id, entries.len() as int));
    assert forall|i: int| entry_under(after, id, i) implies after[i].1 == T::identified(
        entity,
        id,
    ) by {
        if i < entries.len() {
            assert(entry_under(entries, id, i));
        }
    }
    if ids_distinct(entries) {
        assert forall|i: int, j: int| 0 <= i < j < after.len() implies after[i].0 != after[j].0 by {
            if j == entries.len() {
                assert(!entry_under(entries, id, i));
            }
        }
    }
}

/// A flag that was created comes back with the name, label, switch, rules
/// and timestamps it was given.
pub proof fn lemma_created_flag_is_unchanged(
    entries: Seq<(Seq<char>, FlagModel)>,
    flag: FlagModel,
    id: Seq<char>,
)
    requires
        !has_id(entries, id),
    ensures
        ({
            let after = entries.push((id, FeatureFlag::identified(flag, id)));
            forall|i: int|
                entry_under(after, id, i) ==> after[i].1 == (FlagModel { id: Some(id), ..flag })
        }),
{
    lemma_created_is_found::<FeatureFlag>(entries, flag, id);
}

/// After the document under an identifier was replaced, that identifier
/// names exactly the new document, and every other document is as it was.
pub proof fn lemma_updated_is_found<T: Document>(
    entries: Seq<(Seq<char>, T::V)>,
    at: int,
    entity: T::V,
    id: Seq<char>,
)
    requires
        ids_distinct(entries),
        entry_under(entries, id, at),
    ensures
        ({
            let after = entries.update(at, (id, T::identified(entity, id)));
            &&& after.len() == entries.len()
            &&& has_id(after, id)
            &&& forall|i: int| entry_under(after, id, i) ==> after[i].1 == T::identified(entity, id)
            &&& forall|i: int| 0 <= i < entries.len() && i != at ==> after[i] == entries[i]
            &&& ids_distinct(after)
        }),
{
    let after = entries.update(at, (id, T::identified(entity, id)));
    assert(entry_under(after, id, at));
    assert forall|i: int| entry_under(after, id, i) implies after[i].1 == T::identified(
        entity,
        id,
    ) by {
        if i != at {
            assert(entries[i].0 == entries[at].0);
        }
    }
    assert forall|i: int, j: int| 0 <= i < j < after.len() implies after[i].0 != after[j].0 by {
        assert(entries[i].0 != entries[j].0);
    }
}

/// After a stored flag got a new label, switch and rules, it comes back
/// with exactly these, and with the identifier, name and timestamps it had.
pub proof fn lemma_updated_flag_keeps_the_rest(
    entries: Seq<(Seq<char>, FlagModel)>,
    at: int,
    id: Seq<char>,
    label: Seq<char>,
    enabled: bool,
    rules: Seq<RuleModel>,
)
    requires
        ids_distinct(entries),
        entry_under(entries, id, at),
    ensures
        ({
            let changed = FlagModel { label, enabled, rules, ..entries[at].1 };
            let after = entries.update(at, (id, FeatureFlag::identified(changed, id)));
            forall|i: int|
                entry_under(after, id, i) ==> after[i].1 == (FlagModel {
                    id: Some(id),
                    label,
                    enabled,
                    rules,
                    ..entries[at].1
                })
        }),
{
    let changed = FlagModel { label, enabled, rules, ..entries[at].1 };
    lemma_updated_is_found::<FeatureFlag>(entries, at, changed, id);
}

/// After a document was created, its name is taken: a second creation
/// under the same name is refused.
pub proof fn lemma_created_name_is_taken<T: Document>(
    entries: Seq<(Seq<char>, T::V)>,
    entity: T::V,
    id: Seq<char>,
)
    ensures
        MemoryRepository::<T>::named(
            entries.push((id, T::identified(entity, id))),
            T::name_of(entity),
        ),
{
    let after = entries.push((id, T::identified(entity, id)));
    T::lemma_identified_keeps_name(entity, id);
    assert(T::name_of(after[entries.len() as int].1) == T::name_of(entity));
}

/// After the document under an identifier was removed, nothing is kept
/// under that identifier, and every other document is still there.
pub proof fn lemma_removed_is_gone<V>(entries: Seq<(Seq<char>, V)>, at: int, id: Seq<char>)
    requires
        ids_distinct(entries),
        entry_under(entries, id, at),
    ensures
        !has_id(entries.remove(at), id),
        forall|other: Seq<char>|
            other != id ==> (has_id(entries.remove(at), other) <==> has_id(entries, other)),
        ids_distinct(entries.remove(at)),
{
    let after = entries.remove(at);
    if has_id(after, id) {
        let i = choose|i: int| entry_under(after, id, i);
        if i < at {
            assert(entries[i].0 != entries[at].0);
        } else {
            assert(entries[at].0 != entries[i + 1].0);
        }
    }
    assert forall|other: Seq<char>| other != id implies (has_id(after, other) <==> has_id(
        entries,
        other,
    )) by {
        if has_id(after, other) {
            let i = choose|i: int| entry_under(after, other, i);
            if i < at {
                assert(entry_under(entries, other, i));
            } else {
                assert(entry_under(entries, other, i + 1));
            }
        }
        if has_id(entries, other) {
            let i = choose|i: int| entry_under(entries, other, i);
            if i < at {
                assert(entry_under(after, other, i));
            } else {
                assert(entry_under(after, other, i - 1));
            }
        }
    }
    assert forall|i: int, j: int| 0 <= i < j < after.len() implies after[i].0 != after[j].0 by {
        let a = if i < at { i } else { i + 1 };
        let b = if j < at { j } else { j + 1 };
        assert(entries[a].0 != entries[b].0);
    }
}

} // verus!
