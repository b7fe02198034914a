//! Atoms: symbolic constants, their reversible encoding as C macro names, and
//! the append-only table that numbers them.
use vstd::prelude::*;

use crate::text::{nat_digits, push_char, push_str, push_u64_digits};
use crate::Compilable;

verus! {

/// The marker that starts every encoded atom, keeping it apart from user names.
pub const ATOM_PREFIX: &'static str = "__Atom_";

/// The text of the marker.
pub open spec fn atom_prefix() -> Seq<char> {
    seq!['_', '_', 'A', 't', 'o', 'm', '_']
}

pub open spec fn is_lower(c: char) -> bool {
    'a' <= c && c <= 'z'
}

pub open spec fn is_upper(c: char) -> bool {
    'A' <= c && c <= 'Z'
}

pub open spec fn is_digit(c: char) -> bool {
    '0' <= c && c <= '9'
}

/// A character that an atom identifier may hold: an ASCII letter, a digit or a hyphen.
pub open spec fn is_identifier_char(c: char) -> bool {
    is_lower(c) || is_upper(c) || is_digit(c) || c == '-'
}

/// An identifier that `encode` accepts: non-empty, of letters, digits and hyphens.
pub open spec fn valid_identifier(s: Seq<char>) -> bool {
    s.len() > 0 && forall|i: int| 0 <= i < s.len() ==> is_identifier_char(#[trigger] s[i])
}

/// A valid identifier in canonical form: no uppercase letter.
pub open spec fn canonical_identifier(s: Seq<char>) -> bool {
    valid_identifier(s) && forall|i: int| 0 <= i < s.len() ==> !is_upper(#[trigger] s[i])
}

pub open spec fn to_upper(c: char) -> char {
    if is_lower(c) {
        ((c as u8) - 32) as u8 as char
    } else {
        c
    }
}

pub open spec fn to_lower(c: char) -> char {
    if is_upper(c) {
        ((c as u8) + 32) as u8 as char
    } else {
        c
    }
}

/// One identifier character as it stands in the encoding.
pub open spec fn encode_char(c: char) -> char {
    if c == '-' {
        '_'
    } else {
        to_upper(c)
    }
}

/// One encoded character as it stands in the identifier.
pub open spec fn decode_char(c: char) -> char {
    if c == '_' {
        '-'
    } else {
        to_lower(c)
    }
}

/// The encoding of an identifier: the marker, then the identifier in
/// uppercase with every hyphen replaced by an underscore.
pub open spec fn spec_encode(s: Seq<char>) -> Seq<char> {
    atom_prefix() + s.map_values(|c: char| encode_char(c))
}

/// The text that follows the marker, or the whole text where it does not
/// start with the marker.
pub open spec fn strip_prefix(t: Seq<char>) -> Seq<char> {
    if t.len() >= atom_prefix().len() && t.take(atom_prefix().len() as int) == atom_prefix() {
        t.skip(atom_prefix().len() as int)
    } else {
        t
    }
}

/// The decoding of a text: the marker stripped, ASCII letters in lowercase,
/// every underscore replaced by a hyphen.
pub open spec fn spec_decode(t: Seq<char>) -> Seq<char> {
    strip_prefix(t).map_values(|c: char| decode_char(c))
}

/// An identifier that the codec refused.
#[derive(Debug, PartialEq, Eq, Structural)]
pub enum CodecError {
    /// The identifier is empty or holds a character other than an ASCII
    /// letter, a digit or a hyphen.
    InvalidIdentifier,
}

fn char_to_upper(c: char) -> (r: char)
    ensures
        r == to_upper(c),
{
    if 'a' <= c && c <= 'z' {
        ((c as u8) - 32) as char
    } else {
        c
    }
}

fn char_to_lower(c: char) -> (r: char)
    ensures
        r == to_lower(c),
{
    if 'A' <= c && c <= 'Z' {
        ((c as u8) + 32) as char
    } else {
        c
    }
}

/// Whether `id` is a valid atom identifier.
pub fn is_valid_identifier(id: &str) -> (r: bool)
    ensures
        r == valid_identifier(id@),
{
    let n = id.unicode_len();
    if n == 0 {
        return false;
    }
    let mut i: usize = 0;
    while i < n
        invariant
            n == id@.len(),
            i <= n,
            forall|j: int| 0 <= j < i ==> is_identifier_char(#[trigger] id@[j]),
        decreases n - i,
    {
        let c = id.get_char(i);
        if !(('a' <= c && c <= 'z') || ('A' <= c && c <= 'Z') || ('0' <= c && c <= '9') || c
            == '-') {
            return false;
        }
        i = i + 1;
    }
    true
}

/// Encodes an atom identifier as a C macro name.
pub fn encode(id: &str) -> (r: Result<String, CodecError>)
    ensures
        valid_identifier(id@) ==> (r is Ok && r->Ok_0@ == spec_encode(id@)),
        !valid_identifier(id@) ==> r == Err::<String, CodecError>(CodecError::InvalidIdentifier),
{
    if !is_valid_identifier(id) {
        return Err(CodecError::InvalidIdentifier);
    }
    let n = id.unicode_len();
    let mut out = String::new();
    push_str(&mut out, ATOM_PREFIX);
    proof {
        reveal_strlit("__Atom_");
    }
    let mut i: usize = 0;
    while i < n
        invariant
            n == id@.len(),
            i <= n,
            out@ == atom_prefix() + id@.take(i as int).map_values(|c: char| encode_char(c)),
        decreases n - i,
    {
        let c = id.get_char(i);
        let e = if c == '-' {
            '_'
        } else {
            char_to_upper(c)
        };
        push_char(&mut out, e);
        i = i + 1;
        assert(id@.take(i as int) =~= id@.take(i - 1).push(c));
        assert(out@ =~= atom_prefix() + id@.take(i as int).map_values(|c: char| encode_char(c)));
    }
    assert(id@.take(n as int) =~= id@);
    Ok(out)
}

/// Decodes a C macro name back to an atom identifier. Total on every text;
/// the inverse of `encode` on what `encode` produced.
pub fn decode(rep: &str) -> (r: String)
    ensures
        r@ == spec_decode(rep@),
{
    proof {
        reveal_strlit("__Atom_");
    }
    assert(ATOM_PREFIX@ =~= atom_prefix());
    let n = rep.unicode_len();
    let p = ATOM_PREFIX.unicode_len();
    let mut start: usize = 0;
    if n >= p {
        let mut same = true;
        let mut k: usize = 0;
        assert(rep@.take(0) =~= atom_prefix().take(0));
        while k < p
            invariant
                p == atom_prefix().len(),
                ATOM_PREFIX@ == atom_prefix(),
                n == rep@.len(),
                p <= n,
                k <= p,
                same == (rep@.take(k as int) == atom_prefix().take(k as int)),
            decreases p - k,
        {
            let a = rep.get_char(k);
            let b = ATOM_PREFIX.get_char(k);
            proof {
                if same {
                    if a == b {
                        assert(rep@.take(k + 1) =~= atom_prefix().take(k + 1));
                    } else {
                        assert(rep@.take(k + 1)[k as int] != atom_prefix().take(k + 1)[k as int]);
                    }
                } else {
                    if rep@.take(k + 1) == atom_prefix().take(k + 1) {
                        assert(rep@.take(k as int) =~= rep@.take(k + 1).take(k as int));
                        assert(atom_prefix().take(k as int) =~= atom_prefix().take(k + 1).take(
                            k as int,
                        ));
                    }
                }
            }
            same = same && a == b;
            k = k + 1;
        }
        assert(atom_prefix().take(p as int) =~= atom_prefix());
        if same {
            start = p;
        }
    }
    let mut out = String::new();
    let mut i: usize = start;
    while i < n
        invariant
            n == rep@.len(),
            start <= i <= n,
            strip_prefix(rep@) == rep@.skip(start as int),
            out@ == rep@.subrange(start as int, i as int).map_values(|c: char| decode_char(c)),
        decreases n - i,
    {
        let c = rep.get_char(i);
        let d = if c == '_' {
            '-'
        } else {
            char_to_lower(c)
        };
        push_char(&mut out, d);
        i = i + 1;
        assert(rep@.subrange(start as int, i as int) =~= rep@.subrange(start as int, i - 1).push(
            c,
        ));
        assert(out@ =~= rep@.subrange(start as int, i as int).map_values(
            |c: char| decode_char(c),
        ));
    }
    assert(rep@.subrange(start as int, n as int) =~= rep@.skip(start as int));
    out
}

/// A symbolic constant, held as its encoded C macro name.
pub struct Atom(String);

impl View for Atom {
    type V = Seq<char>;

    closed spec fn view(&self) -> Seq<char> {
        self.0@
    }
}

/// A text that `encode` produces from some valid identifier.
pub open spec fn is_encoding(rep: Seq<char>) -> bool {
    exists|id: Seq<char>| valid_identifier(id) && rep == spec_encode(id)
}

impl Atom {
    #[verifier::type_invariant]
    closed spec fn well_formed(self) -> bool {
        is_encoding(self.0@)
    }

    /// The atom of an identifier; refuses an invalid identifier.
    pub fn from_identifier(id: &str) -> (r: Result<Atom, CodecError>)
        ensures
            valid_identifier(id@) ==> (r is Ok && r->Ok_0@ == spec_encode(id@)),
            !valid_identifier(id@) ==> r == Err::<Atom, CodecError>(CodecError::InvalidIdentifier),
    {
        match encode(id) {
            Ok(rep) => {
                assert(valid_identifier(id@) && rep@ == spec_encode(id@));
                Ok(Atom(rep))
            },
            Err(e) => Err(e),
        }
    }

    /// The identifier that the atom was made from, in canonical form: the
    /// one canonical identifier whose encoding is the atom's name.
    pub fn into_identifier(&self) -> (r: String)
        ensures
            r@ == spec_decode(self@),
            canonical_identifier(r@),
            spec_encode(r@) == self@,
    {
        proof {
            use_type_invariant(self);
            let id = choose|id: Seq<char>| valid_identifier(id) && self.0@ == spec_encode(id);
            lemma_decode_encoding(id);
        }
        decode(self.0.as_str())
    }

    /// Appends the macro name to `out`.
    pub fn write_to(&self, out: &mut String)
        ensures
            final(out)@ == old(out)@ + self@,
    {
        push_str(out, self.0.as_str());
    }
}

impl Compilable for Atom {
    open spec fn rendered(&self) -> Seq<char> {
        self@
    }

    fn compile(&self) -> (r: String) {
        let mut r = String::new();
        self.write_to(&mut r);
        r
    }
}

/// The line that binds an atom's macro name to its index in the table.
pub open spec fn define_line(rep: Seq<char>, index: nat) -> Seq<char> {
    "#define "@ + rep + " "@ + nat_digits(index) + "\n"@
}

/// The define lines of a table of atoms, each bound to its position.
pub open spec fn atoms_text(table: Seq<Seq<char>>) -> Seq<char>
    decreases table.len(),
{
    if table.len() == 0 {
        Seq::empty()
    } else {
        atoms_text(table.drop_last()) + define_line(table.last(), (table.len() - 1) as nat)
    }
}

/// The index of the first entry equal to `rep`, if any.
pub open spec fn first_index(table: Seq<Seq<char>>, rep: Seq<char>) -> Option<nat> {
    if exists|i: int| 0 <= i < table.len() && table[i] == rep {
        let i = choose|i: int|
            0 <= i < table.len() && table[i] == rep && forall|j: int|
                0 <= j < i ==> table[j] != rep;
        Some(i as nat)
    } else {
        None
    }
}

/// The atoms of a compilation unit, numbered by the order in which they
/// were added. Entries are only ever appended.
pub struct Atoms {
    atoms: Vec<Atom>,
}

impl View for Atoms {
    type V = Seq<Seq<char>>;

    closed spec fn view(&self) -> Seq<Seq<char>> {
        self.atoms@.map_values(|a: Atom| a@)
    }
}

impl Atoms {
    /// An empty table.
    pub fn new() -> (r: Atoms)
        ensures
            r@ == Seq::<Seq<char>>::empty(),
    {
        let r = Atoms { atoms: Vec::new() };
        assert(r@ =~= Seq::<Seq<char>>::empty());
        r
    }

    /// The number of atoms in the table.
    pub fn len(&self) -> (r: usize)
        ensures
            r == self@.len(),
    {
        self.atoms.len()
    }

    /// The atom at `index`.
    pub fn get(&self, index: usize) -> (r: &Atom)
        requires
            index < self@.len(),
        ensures
            r@ == self@[index as int],
    {
        &self.atoms[index]
    }

    /// Appends an atom and returns its index, the number of atoms before it.
    pub fn push(&mut self, atom: Atom) -> (r: usize)
        ensures
            r == old(self)@.len(),
            final(self)@ == old(self)@.push(atom@),
    {
        let r = self.atoms.len();
        self.atoms.push(atom);
        assert(final(self)@ =~= old(self)@.push(atom@));
        r
    }

    /// The index of the first atom with the same macro name as `atom`.
    pub fn index_of(&self, atom: &Atom) -> (r: Option<usize>)
        ensures
            r matches Some(i) ==> first_index(self@, atom@) == Some(i as nat),
            r is None ==> first_index(self@, atom@) is None,
    {
        let mut i: usize = 0;
        while i < self.atoms.len()
            invariant
                i <= self@.len(),
                self@.len() == self.atoms@.len(),
                forall|j: int| 0 <= j < i ==> self@[j] != atom@,
            decreases self.atoms.len() - i,
        {
            let same = self.atoms[i].0 == atom.0;
            if same {
                assert(self@[i as int] == atom@);
                let ghost k = choose|k: int|
                    0 <= k < self@.len() && self@[k] == atom@ && forall|j: int|
                        0 <= j < k ==> self@[j] != atom@;
                assert(k == i) by {
                    if k < i {
                    } else if k > i {
                        assert(self@[i as int] != atom@);
                    }
                }
                return Some(i);
            }
            i = i + 1;
        }
        None
    }

    /// Appends the define line of every atom to `out`, in table order.
    pub fn write_to(&self, out: &mut String)
        ensures
            final(out)@ == old(out)@ + atoms_text(self@),
    {
        let mut i: usize = 0;
        while i < self.atoms.len()
            invariant
                i <= self@.len(),
                self@.len() == self.atoms@.len(),
                out@ == old(out)@ + atoms_text(self@.take(i as int)),
            decreases self.atoms.len() - i,
        {
            push_str(out, "#define ");
            self.atoms[i].write_to(out);
            push_str(out, " ");
            push_u64_digits(out, i as u64);
            push_str(out, "\n");
            assert(self@.take(i + 1).drop_last() =~= self@.take(i as int));
            i = i + 1;
            assert(out@ =~= old(out)@ + atoms_text(self@.take(i as int)));
        }
        assert(self@.take(i as int) =~= self@);
    }
}

impl Compilable for Atoms {
    open spec fn rendered(&self) -> Seq<char> {
        atoms_text(self@)
    }

    fn compile(&self) -> (r: String) {
        let mut r = String::new();
        self.write_to(&mut r);
        assert(r@ =~= atoms_text(self@));
        r
    }
}

/// Appending an atom leaves every earlier atom where it was: the define
/// lines of the earlier atoms stay as they were, and the new atom's line,
/// bound to the old length, follows them.
pub proof fn lemma_append_keeps_indices(table: Seq<Seq<char>>, rep: Seq<char>)
    ensures
        atoms_text(table.push(rep)) == atoms_text(table) + define_line(rep, table.len()),
        forall|i: int| 0 <= i < table.len() ==> #[trigger] table.push(rep)[i] == table[i],
        forall|i: int|
            0 <= i < table.len() ==> first_index(table.push(rep), #[trigger] table[i])
                == first_index(table, table[i]),
{
    assert(table.push(rep).drop_last() =~= table);
    assert forall|i: int| 0 <= i < table.len() implies first_index(
        table.push(rep),
        #[trigger] table[i],
    ) == first_index(table, table[i]) by {
        let t2 = table.push(rep);
        let r = table[i];
        assert(t2[i] == r);
        let k1 = choose|k: int|
            0 <= k < table.len() && table[k] == r && forall|j: int| 0 <= j < k ==> table[j] != r;
        let k2 = choose|k: int|
            0 <= k < t2.len() && t2[k] == r && forall|j: int| 0 <= j < k ==> t2[j] != r;
        lemma_first_exists(table, r, i);
        lemma_first_exists(t2, r, i);
        if k1 < k2 {
            assert(t2[k1] == r);
        } else if k2 < k1 {
            if k2 < table.len() {
                assert(table[k2] == r);
            } else {
                assert(t2[i] == r);
            }
        }
    }
}

proof fn lemma_first_exists(table: Seq<Seq<char>>, r: Seq<char>, i: int)
    requires
        0 <= i < table.len(),
        table[i] == r,
    ensures
        exists|k: int|
            0 <= k < table.len() && table[k] == r && forall|j: int| 0 <= j < k ==> table[j] != r,
    decreases i,
{
    if exists|j: int| 0 <= j < i && table[j] == r {
        let j = choose|j: int| 0 <= j < i && table[j] == r;
        lemma_first_exists(table, r, j);
    } else {
        assert(forall|j: int| 0 <= j < i ==> table[j] != r);
    }
}

/// Decoding an encoded canonical identifier gives the identifier back.
pub proof fn lemma_decode_encode(x: Seq<char>)
    requires
        canonical_identifier(x),
    ensures
        spec_decode(spec_encode(x)) == x,
{
    let e = spec_encode(x);
    assert(e.take(atom_prefix().len() as int) =~= atom_prefix());
    assert(e.skip(atom_prefix().len() as int) =~= x.map_values(|c: char| encode_char(c)));
    assert forall|i: int| 0 <= i < x.len() implies decode_char(encode_char(x[i])) == x[i] by {
        let c = x[i];
        assert(is_identifier_char(c));
        assert(!is_upper(c));
        if is_lower(c) {
            assert(((((c as u8) - 32) as u8 as char) as u8) == (c as u8) - 32);
        }
    }
    assert(spec_decode(e) =~= x);
}

/// Decoding the encoding of any valid identifier gives a canonical
/// identifier with the same encoding.
pub proof fn lemma_decode_encoding(x: Seq<char>)
    requires
        valid_identifier(x),
    ensures
        canonical_identifier(spec_decode(spec_encode(x))),
        spec_encode(spec_decode(spec_encode(x))) == spec_encode(x),
{
    let e = spec_encode(x);
    let y = spec_decode(e);
    assert(e.take(atom_prefix().len() as int) =~= atom_prefix());
    assert(e.skip(atom_prefix().len() as int) =~= x.map_values(|c: char| encode_char(c)));
    assert(y =~= x.map_values(|c: char| decode_char(encode_char(c))));
    assert forall|i: int| 0 <= i < x.len() implies is_identifier_char(#[trigger] y[i]) && !is_upper(
        y[i],
    ) && encode_char(y[i]) == encode_char(x[i]) by {
        let c = x[i];
        assert(is_identifier_char(c));
        if is_lower(c) {
            assert(((((c as u8) - 32) as u8 as char) as u8) == (c as u8) - 32);
        } else if is_upper(c) {
            assert(((((c as u8) + 32) as u8 as char) as u8) == (c as u8) + 32);
        }
    }
    assert(spec_encode(y) =~= e);
}

/// Two distinct canonical identifiers have distinct encodings.
pub proof fn lemma_encode_injective(x: Seq<char>, y: Seq<char>)
    requires
        canonical_identifier(x),
        canonical_identifier(y),
        x != y,
    ensures
        spec_encode(x) != spec_encode(y),
{
    lemma_decode_encode(x);
    lemma_decode_encode(y);
}

} // verus!
