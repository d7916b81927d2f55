//! The ext2/3/4 attribute flags that `lsattr` prints, and their names.
use vstd::prelude::*;

verus! {

/// The name of the attribute that flag `c` stands for in `lsattr` output,
/// or `None` for a character that is not a known flag.
pub open spec fn attribute_name(c: char) -> Option<Seq<char>> {
    if c == 'A' {
        Some("noatime"@)
    } else if c == 'a' {
        Some("append"@)
    } else if c == 'c' {
        Some("compressed"@)
    } else if c == 'C' {
        Some("nocow"@)
    } else if c == 'd' {
        Some("nodump"@)
    } else if c == 'D' {
        Some("dirsync"@)
    } else if c == 'e' {
        Some("extents"@)
    } else if c == 'E' {
        Some("encrypted"@)
    } else if c == 'h' {
        Some("blocksize"@)
    } else if c == 'i' {
        Some("immutable"@)
    } else if c == 'I' {
        Some("indexed"@)
    } else if c == 'j' {
        Some("journalled"@)
    } else if c == 'N' {
        Some("inline"@)
    } else if c == 's' {
        Some("zero"@)
    } else if c == 'S' {
        Some("synchronous"@)
    } else if c == 't' {
        Some("notail"@)
    } else if c == 'T' {
        Some("blockroot"@)
    } else if c == 'u' {
        Some("undelete"@)
    } else if c == 'X' {
        Some("compressedraw"@)
    } else if c == 'Z' {
        Some("compresseddirty"@)
    } else {
        None
    }
}

/// Every character of `flags` is a known attribute flag.
pub open spec fn all_flags_known(flags: Seq<char>) -> bool {
    forall|i: int| 0 <= i < flags.len() ==> (#[trigger] attribute_name(flags[i])) is Some
}

/// The attribute names of `flags`, one per flag, in order.
pub open spec fn attribute_names(flags: Seq<char>) -> Seq<Seq<char>> {
    flags.map_values(|c: char| attribute_name(c).unwrap())
}

/// The name of the attribute that flag `c` stands for, if it is a known flag.
pub fn attribute_name_of(c: char) -> (r: Option<String>)
    ensures
        match r {
            Some(name) => attribute_name(c) == Some(name@),
            None => attribute_name(c) is None,
        },
{
    let name: &str = if c == 'A' {
        "noatime"
    } else if c == 'a' {
        "append"
    } else if c == 'c' {
        "compressed"
    } else if c == 'C' {
        "nocow"
    } else if c == 'd' {
        "nodump"
    } else if c == 'D' {
        "dirsync"
    } else if c == 'e' {
        "extents"
    } else if c == 'E' {
        "encrypted"
    } else if c == 'h' {
        "blocksize"
    } else if c == 'i' {
        "immutable"
    } else if c == 'I' {
        "indexed"
    } else if c == 'j' {
        "journalled"
    } else if c == 'N' {
        "inline"
    } else if c == 's' {
        "zero"
    } else if c == 'S' {
        "synchronous"
    } else if c == 't' {
        "notail"
    } else if c == 'T' {
        "blockroot"
    } else if c == 'u' {
        "undelete"
    } else if c == 'X' {
        "compressedraw"
    } else if c == 'Z' {
        "compresseddirty"
    } else {
        return None;
    };
    Some(String::from_str(name))
}

/// Whether every character of `flags` is a known attribute flag.
pub fn flags_known(flags: &Vec<char>) -> (b: bool)
    ensures
        b == all_flags_known(flags@),
{
    let mut i: usize = 0;
    while i < flags.len()
        invariant
            0 <= i <= flags.len(),
            forall|k: int| 0 <= k < i ==> (#[trigger] attribute_name(flags@[k])) is Some,
        decreases flags.len() - i,
    {
        if attribute_name_of(flags[i]).is_none() {
            return false;
        }
        i = i + 1;
    }
    true
}

/// The names of the attributes that `flags` lists, one per flag, in order.
pub fn names_of_flags(flags: &Vec<char>) -> (names: Vec<String>)
    requires
        all_flags_known(flags@),
    ensures
        crate::text::string_views(names@) == attribute_names(flags@),
{
    let mut names: Vec<String> = Vec::new();
    let mut i: usize = 0;
    while i < flags.len()
        invariant
            0 <= i <= flags.len(),
            all_flags_known(flags@),
            crate::text::string_views(names@) == attribute_names(flags@).take(i as int),
        decreases flags.len() - i,
    {
        let c = flags[i];
        assert(attribute_name(flags@[i as int]) is Some);
        match attribute_name_of(c) {
            Some(name) => {
                let ghost prev = names@;
                names.push(name);
                assert(crate::text::string_views(names@) =~= crate::text::string_views(prev).push(
                    attribute_name(c).unwrap(),
                ));
                assert(attribute_names(flags@).take(i + 1) =~= attribute_names(flags@).take(
                    i as int,
                ).push(attribute_name(c).unwrap()));
            },
            None => {},
        }
        i = i + 1;
    }
    assert(attribute_names(flags@).take(flags.len() as int) =~= attribute_names(flags@));
    names
}

/// The flag table: the name of each known flag, spelled out, and no name
/// for any other character.
pub proof fn lemma_attribute_table()
    ensures
        attribute_name('A') == Some(seq!['n', 'o', 'a', 't', 'i', 'm', 'e']),
        attribute_name('a') == Some(seq!['a', 'p', 'p', 'e', 'n', 'd']),
        attribute_name('c') == Some(seq!['c', 'o', 'm', 'p', 'r', 'e', 's', 's', 'e', 'd']),
        attribute_name('C') == Some(seq!['n', 'o', 'c', 'o', 'w']),
        attribute_name('d') == Some(seq!['n', 'o', 'd', 'u', 'm', 'p']),
        attribute_name('D') == Some(seq!['d', 'i', 'r', 's', 'y', 'n', 'c']),
        attribute_name('e') == Some(seq!['e', 'x', 't', 'e', 'n', 't', 's']),
        attribute_name('E') == Some(seq!['e', 'n', 'c', 'r', 'y', 'p', 't', 'e', 'd']),
        attribute_name('h') == Some(seq!['b', 'l', 'o', 'c', 'k', 's', 'i', 'z', 'e']),
        attribute_name('i') == Some(seq!['i', 'm', 'm', 'u', 't', 'a', 'b', 'l', 'e']),
        attribute_name('I') == Some(seq!['i', 'n', 'd', 'e', 'x', 'e', 'd']),
        attribute_name('j') == Some(seq!['j', 'o', 'u', 'r', 'n', 'a', 'l', 'l', 'e', 'd']),
        attribute_name('N') == Some(seq!['i', 'n', 'l', 'i', 'n', 'e']),
        attribute_name('s') == Some(seq!['z', 'e', 'r', 'o']),
        attribute_name('S') == Some(seq!['s', 'y', 'n', 'c', 'h', 'r', 'o', 'n', 'o', 'u', 's']),
        attribute_name('t') == Some(seq!['n', 'o', 't', 'a', 'i', 'l']),
        attribute_name('T') == Some(seq!['b', 'l', 'o', 'c', 'k', 'r', 'o', 'o', 't']),
        attribute_name('u') == Some(seq!['u', 'n', 'd', 'e', 'l', 'e', 't', 'e']),
        attribute_name('X') == Some(seq!['c', 'o', 'm', 'p', 'r', 'e', 's', 's', 'e', 'd', 'r', 'a', 'w']),
        attribute_name('Z') == Some(seq!['c', 'o', 'm', 'p', 'r', 'e', 's', 's', 'e', 'd', 'd', 'i', 'r', 't', 'y']),
        forall|c: char| (#[trigger] attribute_name(c)) is Some <==> (c == 'A' || c == 'a' || c == 'c' || c == 'C' || c == 'd' || c == 'D' || c == 'e' || c == 'E' || c == 'h' || c == 'i' || c == 'I' || c == 'j' || c == 'N' || c == 's' || c == 'S' || c == 't' || c == 'T' || c == 'u' || c == 'X' || c == 'Z'),
{
    reveal_strlit("noatime");
    reveal_strlit("append");
    reveal_strlit("compressed");
    reveal_strlit("nocow");
    reveal_strlit("nodump");
    reveal_strlit("dirsync");
    reveal_strlit("extents");
    reveal_strlit("encrypted");
    reveal_strlit("blocksize");
    reveal_strlit("immutable");
    reveal_strlit("indexed");
    reveal_strlit("journalled");
    reveal_strlit("inline");
    reveal_strlit("zero");
    reveal_strlit("synchronous");
    reveal_strlit("notail");
    reveal_strlit("blockroot");
    reveal_strlit("undelete");
    reveal_strlit("compressedraw");
    reveal_strlit("compresseddirty");
    assert("noatime"@ =~= seq!['n', 'o', 'a', 't', 'i', 'm', 'e']);
    assert("append"@ =~= seq!['a', 'p', 'p', 'e', 'n', 'd']);
    assert("compressed"@ =~= seq!['c', 'o', 'm', 'p', 'r', 'e', 's', 's', 'e', 'd']);
    assert("nocow"@ =~= seq!['n', 'o', 'c', 'o', 'w']);
    assert("nodump"@ =~= seq!['n', 'o', 'd', 'u', 'm', 'p']);
    assert("dirsync"@ =~= seq!['d', 'i', 'r', 's', 'y', 'n', 'c']);
    assert("extents"@ =~= seq!['e', 'x', 't', 'e', 'n', 't', 's']);
    assert("encrypted"@ =~= seq!['e', 'n', 'c', 'r', 'y', 'p', 't', 'e', 'd']);
    assert("blocksize"@ =~= seq!['b', 'l', 'o', 'c', 'k', 's', 'i', 'z', 'e']);
    assert("immutable"@ =~= seq!['i', 'm', 'm', 'u', 't', 'a', 'b', 'l', 'e']);
    assert("indexed"@ =~= seq!['i', 'n', 'd', 'e', 'x', 'e', 'd']);
    assert("journalled"@ =~= seq!['j', 'o', 'u', 'r', 'n', 'a', 'l', 'l', 'e', 'd']);
    assert("inline"@ =~= seq!['i', 'n', 'l', 'i', 'n', 'e']);
    assert("zero"@ =~= seq!['z', 'e', 'r', 'o']);
    assert("synchronous"@ =~= seq!['s', 'y', 'n', 'c', 'h', 'r', 'o', 'n', 'o', 'u', 's']);
    assert("notail"@ =~= seq!['n', 'o', 't', 'a', 'i', 'l']);
    assert("blockroot"@ =~= seq!['b', 'l', 'o', 'c', 'k', 'r', 'o', 'o', 't']);
    assert("undelete"@ =~= seq!['u', 'n', 'd', 'e', 'l', 'e', 't', 'e']);
    assert("compressedraw"@ =~= seq!['c', 'o', 'm', 'p', 'r', 'e', 's', 's', 'e', 'd', 'r', 'a', 'w']);
    assert("compresseddirty"@ =~= seq!['c', 'o', 'm', 'p', 'r', 'e', 's', 's', 'e', 'd', 'd', 'i', 'r', 't', 'y']);
}

/// A few characters and the length of a name, enough to tell the table's
/// names apart.
pub open spec fn name_fingerprint(n: Seq<char>) -> (int, char, char, char) {
    (n.len() as int, n[0], n[2], if n.len() > 5 { n[5] } else { ' ' })
}

/// Different flags have different names.
pub proof fn lemma_attribute_names_distinct(c: char, d: char)
    requires
        attribute_name(c) is Some,
        attribute_name(d) is Some,
        c != d,
    ensures
        attribute_name(c) != attribute_name(d),
{
    lemma_attribute_table();
    assert(name_fingerprint(attribute_name('A')->0) == (7int, 'n', 'a', 'm'));
    assert(name_fingerprint(attribute_name('a')->0) == (6int, 'a', 'p', 'd'));
    assert(name_fingerprint(attribute_name('c')->0) == (10int, 'c', 'm', 'e'));
    assert(name_fingerprint(attribute_name('C')->0) == (5int, 'n', 'c', ' '));
    assert(name_fingerprint(attribute_name('d')->0) == (6int, 'n', 'd', 'p'));
    assert(name_fingerprint(attribute_name('D')->0) == (7int, 'd', 'r', 'n'));
    assert(name_fingerprint(attribute_name('e')->0) == (7int, 'e', 't', 't'));
    assert(name_fingerprint(attribute_name('E')->0) == (9int, 'e', 'c', 'p'));
    assert(name_fingerprint(attribute_name('h')->0) == (9int, 'b', 'o', 's'));
    assert(name_fingerprint(attribute_name('i')->0) == (9int, 'i', 'm', 'a'));
    assert(name_fingerprint(attribute_name('I')->0) == (7int, 'i', 'd', 'e'));
    assert(name_fingerprint(attribute_name('j')->0) == (10int, 'j', 'u', 'a'));
    assert(name_fingerprint(attribute_name('N')->0) == (6int, 'i', 'l', 'e'));
    assert(name_fingerprint(attribute_name('s')->0) == (4int, 'z', 'r', ' '));
    assert(name_fingerprint(attribute_name('S')->0) == (11int, 's', 'n', 'r'));
    assert(name_fingerprint(attribute_name('t')->0) == (6int, 'n', 't', 'l'));
    assert(name_fingerprint(attribute_name('T')->0) == (9int, 'b', 'o', 'r'));
    assert(name_fingerprint(attribute_name('u')->0) == (8int, 'u', 'd', 'e'));
    assert(name_fingerprint(attribute_name('X')->0) == (13int, 'c', 'm', 'e'));
    assert(name_fingerprint(attribute_name('Z')->0) == (15int, 'c', 'm', 'e'));
    assert(name_fingerprint(attribute_name(c)->0) != name_fingerprint(attribute_name(d)->0));
}

/// The attribute names of flags: one per flag, the `i`-th being the table
/// name of the `i`-th flag itself.
pub proof fn lemma_attribute_names_per_flag(flags: Seq<char>)
    requires
        all_flags_known(flags),
    ensures
        attribute_names(flags).len() == flags.len(),
        forall|i: int|
            0 <= i < flags.len() ==> Some(#[trigger] attribute_names(flags)[i]) == attribute_name(
                flags[i],
            ),
{
    assert forall|i: int| 0 <= i < flags.len() implies Some(
        #[trigger] attribute_names(flags)[i],
    ) == attribute_name(flags[i]) by {
        assert(attribute_name(flags[i]) is Some);
    }
}

} // verus!
