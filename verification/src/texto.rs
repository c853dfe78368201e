//! Character-sequence utilities shared by the extractor, the sorter and the
//! exporter: whitespace trimming, label stripping and string equality.

use vstd::prelude::*;
use vstd::string::*;

verus! {

/// Relies on `String::push`: appends the given character to the end of the string.
pub assume_specification[ String::push ](s: &mut String, c: char)
    ensures
        final(s)@ == old(s)@.push(c),
;

/// The whitespace characters that field extraction strips from the ends of a value.
pub open spec fn es_espacio(c: char) -> bool {
    c == ' ' || c == '\t' || c == '\n' || c == '\r'
}

/// `s` without its leading whitespace.
pub open spec fn recortar_izq(s: Seq<char>) -> Seq<char>
    decreases s.len(),
{
    if s.len() > 0 && es_espacio(s[0]) {
        recortar_izq(s.drop_first())
    } else {
        s
    }
}

/// `s` without its trailing whitespace.
pub open spec fn recortar_der(s: Seq<char>) -> Seq<char>
    decreases s.len(),
{
    if s.len() > 0 && es_espacio(s.last()) {
        recortar_der(s.drop_last())
    } else {
        s
    }
}

/// `s` without leading or trailing whitespace.
pub open spec fn recortar_spec(s: Seq<char>) -> Seq<char> {
    recortar_der(recortar_izq(s))
}

proof fn lema_recortar_izq_skip(s: Seq<char>, i: int)
    requires
        0 <= i <= s.len(),
        forall|k: int| 0 <= k < i ==> es_espacio(s[k]),
        i == s.len() || !es_espacio(s[i]),
    ensures
        recortar_izq(s) == s.skip(i),
    decreases i,
{
    if i == 0 {
        assert(s.skip(0) =~= s);
    } else {
        let t = s.drop_first();
        assert(forall|k: int| 0 <= k < i - 1 ==> es_espacio(#[trigger] t[k]));
        lema_recortar_izq_skip(t, i - 1);
        assert(t.skip(i - 1) =~= s.skip(i));
    }
}

proof fn lema_recortar_der_take(s: Seq<char>, j: int)
    requires
        0 <= j <= s.len(),
        forall|k: int| j <= k < s.len() ==> es_espacio(s[k]),
        j == 0 || !es_espacio(s[j - 1]),
    ensures
        recortar_der(s) == s.take(j),
    decreases s.len() - j,
{
    if j == s.len() {
        assert(s.take(j) =~= s);
    } else {
        let t = s.drop_last();
        assert(forall|k: int| j <= k < t.len() ==> es_espacio(#[trigger] t[k]));
        lema_recortar_der_take(t, j);
        assert(t.take(j) =~= s.take(j));
    }
}

/// Removes leading and trailing whitespace from `s`.
pub fn recortar(s: &str) -> (r: String)
    ensures
        r@ == recortar_spec(s@),
{
    let n = s.unicode_len();
    let mut i: usize = 0;
    while i < n && es_espacio_exec(s.get_char(i))
        invariant
            0 <= i <= n,
            n == s@.len(),
            forall|k: int| 0 <= k < i ==> es_espacio(s@[k]),
        decreases n - i,
    {
        i = i + 1;
    }
    proof {
        lema_recortar_izq_skip(s@, i as int);
    }
    let mut j: usize = n;
    while j > i && es_espacio_exec(s.get_char(j - 1))
        invariant
            i <= j <= n,
            n == s@.len(),
            forall|k: int| j <= k < n ==> es_espacio(s@[k]),
        decreases j,
    {
        j = j - 1;
    }
    let recortada = s.substring_char(i, j);
    proof {
        let izq = s@.skip(i as int);
        assert(forall|k: int| j - i <= k < izq.len() ==> es_espacio(#[trigger] izq[k]));
        lema_recortar_der_take(izq, j - i);
        assert(izq.take(j - i) =~= s@.subrange(i as int, j as int));
    }
    String::from_str(recortada)
}

/// Executable form of `es_espacio`.
pub fn es_espacio_exec(c: char) -> (r: bool)
    ensures
        r == es_espacio(c),
{
    c == ' ' || c == '\t' || c == '\n' || c == '\r'
}

/// `s` with its first `n` characters removed, or `s` itself when it is shorter
/// than `n`.
pub open spec fn quitar_etiqueta_spec(s: Seq<char>, n: int) -> Seq<char> {
    if s.len() >= n {
        s.skip(n)
    } else {
        s
    }
}

/// Drops the leading label of `n` characters from a pattern match.
pub fn quitar_etiqueta(s: &str, n: usize) -> (r: String)
    ensures
        r@ == quitar_etiqueta_spec(s@, n as int),
{
    let largo = s.unicode_len();
    if largo >= n {
        let resto = s.substring_char(n, largo);
        assert(s@.subrange(n as int, s@.len() as int) =~= s@.skip(n as int));
        String::from_str(resto)
    } else {
        String::from_str(s)
    }
}

/// Character-for-character string equality.
pub fn cadenas_iguales(a: &str, b: &str) -> (r: bool)
    ensures
        r == (a@ == b@),
{
    let na = a.unicode_len();
    let nb = b.unicode_len();
    if na != nb {
        return false;
    }
    let mut i: usize = 0;
    while i < na
        invariant
            0 <= i <= na,
            na == a@.len(),
            na == b@.len(),
            forall|k: int| 0 <= k < i ==> a@[k] == b@[k],
        decreases na - i,
    {
        if a.get_char(i) != b.get_char(i) {
            return false;
        }
        i = i + 1;
    }
    proof {
        assert(a@ =~= b@);
    }
    true
}

} // verus!
