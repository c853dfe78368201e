//! Sort keys: a date string of the form `DD/MM/YYYY` maps to the integer
//! `YYYY*10000 + MM*100 + DD`, and an amount string maps to a value in
//! cents after stripping a trailing euro sign and thousands separators.
//! A string that does not have the expected shape (the sentinel among
//! them) has no key; the sorter places keyless records last.

use vstd::prelude::*;
use vstd::string::*;

verus! {

/// Whether `c` is a decimal digit.
pub open spec fn es_digito(c: char) -> bool {
    48 <= (c as u32) && (c as u32) <= 57
}

/// The numeric value of a digit character.
pub open spec fn valor_digito(c: char) -> int {
    (c as u32) - 48
}

/// Whether every character of `s` is a decimal digit.
pub open spec fn todos_digitos(s: Seq<char>) -> bool {
    forall|k: int| 0 <= k < s.len() ==> es_digito(#[trigger] s[k])
}

/// The value of a sequence of digit characters read in base ten.
pub open spec fn valor_digitos(s: Seq<char>) -> int
    decreases s.len(),
{
    if s.len() == 0 {
        0
    } else {
        valor_digitos(s.drop_last()) * 10 + valor_digito(s.last())
    }
}

/// Ten to the power `n`.
pub open spec fn pot10(n: nat) -> int
    decreases n,
{
    if n == 0 {
        1
    } else {
        10 * pot10((n - 1) as nat)
    }
}

/// The value of `n` digits is below ten to the `n`.
pub proof fn lema_valor_cota(s: Seq<char>)
    requires
        todos_digitos(s),
    ensures
        0 <= valor_digitos(s) < pot10(s.len()),
    decreases s.len(),
{
    if s.len() > 0 {
        assert(forall|k: int| 0 <= k < s.len() - 1 ==> es_digito(#[trigger] s.drop_last()[k]));
        lema_valor_cota(s.drop_last());
        assert(es_digito(s.last()));
    }
}

/// A valid numeric component: non-empty, all digits, at most `max` of them.
pub open spec fn componente_valida(s: Seq<char>, max: int) -> bool {
    1 <= s.len() <= max && todos_digitos(s)
}

/// `s` split at every occurrence of `sep`; splitting the empty sequence
/// gives one empty part, and each separator ends the part before it.
pub open spec fn dividir(s: Seq<char>, sep: char) -> Seq<Seq<char>>
    decreases s.len(),
{
    if s.len() == 0 {
        seq![Seq::<char>::empty()]
    } else if s.last() == sep {
        dividir(s.drop_last(), sep).push(Seq::<char>::empty())
    } else {
        let d = dividir(s.drop_last(), sep);
        d.update(d.len() - 1, d.last().push(s.last()))
    }
}

/// Splitting always yields at least one part.
pub proof fn lema_dividir_no_vacio(s: Seq<char>, sep: char)
    ensures
        dividir(s, sep).len() >= 1,
    decreases s.len(),
{
    if s.len() > 0 {
        lema_dividir_no_vacio(s.drop_last(), sep);
    }
}

/// Splits `s` at every occurrence of `sep`.
pub fn dividir_exec(s: &str, sep: char) -> (r: Vec<String>)
    ensures
        r.deep_view() == dividir(s@, sep),
{
    let n = s.unicode_len();
    let mut terminadas: Vec<String> = Vec::new();
    let mut actual = String::new();
    let mut i: usize = 0;
    while i < n
        invariant
            0 <= i <= n,
            n == s@.len(),
            terminadas.deep_view().push(actual@) == dividir(s@.take(i as int), sep),
        decreases n - i,
    {
        let c = s.get_char(i);
        proof {
            assert(s@.take(i as int + 1).drop_last() =~= s@.take(i as int));
            assert(s@.take(i as int + 1).last() == s@[i as int]);
        }
        if c == sep {
            terminadas.push(actual);
            actual = String::new();
            proof {
                assert(terminadas.deep_view().push(actual@) =~= dividir(
                    s@.take(i as int + 1),
                    sep,
                ));
            }
        } else {
            actual.push(c);
            proof {
                assert(terminadas.deep_view().push(actual@) =~= dividir(
                    s@.take(i as int + 1),
                    sep,
                ));
            }
        }
        i = i + 1;
    }
    proof {
        assert(s@.take(n as int) =~= s@);
    }
    terminadas.push(actual);
    proof {
        assert(terminadas.deep_view() =~= dividir(s@, sep));
    }
    terminadas
}

/// Reads a numeric component of at most `max` digits; `None` exactly when
/// the component is not valid.
pub fn parsear_componente(s: &str, max: usize) -> (r: Option<u64>)
    requires
        1 <= max <= 10,
    ensures
        match r {
            Some(v) => componente_valida(s@, max as int) && v as int == valor_digitos(s@) && (
            v as int) < pot10(max as nat),
            None => !componente_valida(s@, max as int),
        },
{
    let n = s.unicode_len();
    if n < 1 || n > max {
        return None;
    }
    let mut acc: u64 = 0;
    let mut i: usize = 0;
    while i < n
        invariant
            0 <= i <= n,
            n == s@.len(),
            1 <= n <= max <= 10,
            forall|k: int| 0 <= k < i ==> es_digito(#[trigger] s@[k]),
            acc as int == valor_digitos(s@.take(i as int)),
            (acc as int) < pot10(i as nat),
        decreases n - i,
    {
        let c = s.get_char(i);
        let u = c as u32;
        if u < 48 || u > 57 {
            return None;
        }
        proof {
            assert(s@.take(i as int + 1).drop_last() =~= s@.take(i as int));
            assert(s@.take(i as int + 1).last() == s@[i as int]);
            assert(forall|k: int|
                0 <= k < i + 1 ==> es_digito(#[trigger] s@.take(i as int + 1)[k]));
            lema_valor_cota(s@.take(i as int + 1));
            lema_pot10_monotona(i as nat, 9);
            lema_pot10_valores();
        }
        acc = acc * 10 + ((u - 48) as u64);
        i = i + 1;
    }
    proof {
        assert(s@.take(n as int) =~= s@);
        assert(pot10(n as nat) <= pot10(max as nat)) by {
            lema_pot10_monotona(n as nat, max as nat);
        }
    }
    Some(acc)
}

/// Concrete values of `pot10` that the bound proofs use.
pub proof fn lema_pot10_valores()
    ensures
        pot10(2) == 100,
        pot10(4) == 10000,
        pot10(8) == 100000000,
        pot10(9) == 1000000000,
        pot10(10) == 10000000000,
{
    assert(pot10(0) == 1);
    assert(pot10(1) == 10);
    assert(pot10(2) == 100);
    assert(pot10(3) == 1000);
    assert(pot10(4) == 10000);
    assert(pot10(5) == 100000);
    assert(pot10(6) == 1000000);
    assert(pot10(7) == 10000000);
    assert(pot10(8) == 100000000);
    assert(pot10(9) == 1000000000);
    assert(pot10(10) == 10000000000);
}

/// `pot10` grows with its argument.
pub proof fn lema_pot10_monotona(a: nat, b: nat)
    requires
        a <= b,
    ensures
        pot10(a) <= pot10(b),
        pot10(a) >= 1,
    decreases b,
{
    if b > 0 {
        if a == b {
            lema_pot10_monotona((a - 1) as nat, (b - 1) as nat);
        } else {
            lema_pot10_monotona(a, (b - 1) as nat);
        }
    }
}

/// The sort key of a date string: `YYYY*10000 + MM*100 + DD` when the string
/// splits on `/` into exactly three numeric components (day, month, year),
/// and no key otherwise.
pub open spec fn clave_fecha_spec(s: Seq<char>) -> Option<int> {
    let partes = dividir(s, '/');
    if partes.len() == 3 && componente_valida(partes[0], 8) && componente_valida(partes[1], 8)
        && componente_valida(partes[2], 8) {
        Some(
            valor_digitos(partes[2]) * 10000 + valor_digitos(partes[1]) * 100 + valor_digitos(
                partes[0],
            ),
        )
    } else {
        None
    }
}

/// Computes the sort key of a date string.
pub fn clave_fecha(s: &str) -> (r: Option<u64>)
    ensures
        match r {
            Some(v) => clave_fecha_spec(s@) == Some(v as int),
            None => clave_fecha_spec(s@) is None,
        },
{
    let partes = dividir_exec(s, '/');
    if partes.len() != 3 {
        return None;
    }
    let dia = match parsear_componente(partes[0].as_str(), 8) {
        Some(v) => v,
        None => {
            return None;
        },
    };
    let mes = match parsear_componente(partes[1].as_str(), 8) {
        Some(v) => v,
        None => {
            return None;
        },
    };
    let anio = match parsear_componente(partes[2].as_str(), 8) {
        Some(v) => v,
        None => {
            return None;
        },
    };
    proof {
        lema_pot10_valores();
    }
    Some(anio * 10000 + mes * 100 + dia)
}

/// `s` without one trailing euro sign, when it has one.
pub open spec fn sin_euro(s: Seq<char>) -> Seq<char> {
    if s.len() > 0 && s.last() == '€' {
        s.drop_last()
    } else {
        s
    }
}

/// Whether `c` is not a thousands separator.
pub open spec fn no_es_punto(c: char) -> bool {
    c != '.'
}

/// The predicate that keeps every character but the thousands separator.
pub open spec fn criba_puntos() -> spec_fn(char) -> bool {
    |c: char| no_es_punto(c)
}

/// The normal form an amount string is parsed from: a trailing euro sign and
/// every thousands separator removed.
pub open spec fn importe_normal(s: Seq<char>) -> Seq<char> {
    sin_euro(s).filter(criba_puntos())
}

/// The sort key of an amount string, in cents: the normal form must be a
/// numeric component, optionally followed by a comma and one or two decimal
/// digits. Any other shape (the sentinel among them) has no key.
pub open spec fn clave_importe_spec(s: Seq<char>) -> Option<int> {
    let partes = dividir(importe_normal(s), ',');
    if partes.len() == 1 && componente_valida(partes[0], 10) {
        Some(valor_digitos(partes[0]) * 100)
    } else if partes.len() == 2 && componente_valida(partes[0], 10) && componente_valida(
        partes[1],
        2,
    ) {
        Some(
            valor_digitos(partes[0]) * 100 + valor_digitos(partes[1]) * (if partes[1].len() == 1 {
                10int
            } else {
                1int
            }),
        )
    } else {
        None
    }
}

/// Computes the normal form of an amount string.
fn normalizar_importe(s: &str) -> (r: String)
    ensures
        r@ == importe_normal(s@),
{
    let n = s.unicode_len();
    let fin = if n > 0 && s.get_char(n - 1) == '€' {
        n - 1
    } else {
        n
    };
    proof {
        assert(s@.subrange(0, fin as int) =~= sin_euro(s@));
    }
    let base = s.substring_char(0, fin);
    let m = base.unicode_len();
    let mut r = String::new();
    let mut i: usize = 0;
    proof {
        reveal(Seq::filter);
        assert(base@.take(0).filter(criba_puntos()) =~= Seq::<char>::empty());
    }
    while i < m
        invariant
            0 <= i <= m,
            m == base@.len(),
            base@ == sin_euro(s@),
            r@ == base@.take(i as int).filter(criba_puntos()),
        decreases m - i,
    {
        let c = base.get_char(i);
        proof {
            assert(base@.take(i as int + 1) =~= base@.take(i as int).push(base@[i as int]));
            base@.take(i as int).lemma_filter_push(base@[i as int], criba_puntos());
        }
        if c != '.' {
            r.push(c);
        }
        i = i + 1;
    }
    proof {
        assert(base@.take(m as int) =~= base@);
    }
    r
}

/// Computes the sort key of an amount string.
pub fn clave_importe(s: &str) -> (r: Option<u64>)
    ensures
        match r {
            Some(v) => clave_importe_spec(s@) == Some(v as int),
            None => clave_importe_spec(s@) is None,
        },
{
    let normal = normalizar_importe(s);
    let partes = dividir_exec(normal.as_str(), ',');
    proof {
        lema_pot10_valores();
    }
    if partes.len() == 1 {
        match parsear_componente(partes[0].as_str(), 10) {
            Some(v) => Some(v * 100),
            None => None,
        }
    } else if partes.len() == 2 {
        let entera = match parsear_componente(partes[0].as_str(), 10) {
            Some(v) => v,
            None => {
                return None;
            },
        };
        let decimales = match parsear_componente(partes[1].as_str(), 2) {
            Some(v) => v,
            None => {
                return None;
            },
        };
        let escala: u64 = if partes[1].as_str().unicode_len() == 1 {
            10
        } else {
            1
        };
        Some(entera * 100 + decimales * escala)
    } else {
        None
    }
}

/// A well-formed date string: `DD/MM/YYYY`, two digits, two digits and four
/// digits separated by slashes.
pub open spec fn fecha_bien_formada(s: Seq<char>) -> bool {
    s.len() == 10 && s[2] == '/' && s[5] == '/' && todos_digitos(s.subrange(0, 2))
        && todos_digitos(s.subrange(3, 5)) && todos_digitos(s.subrange(6, 10))
}

/// The day of a well-formed date string.
pub open spec fn dia_de(s: Seq<char>) -> int {
    valor_digitos(s.subrange(0, 2))
}

/// The month of a well-formed date string.
pub open spec fn mes_de(s: Seq<char>) -> int {
    valor_digitos(s.subrange(3, 5))
}

/// The year of a well-formed date string.
pub open spec fn anio_de(s: Seq<char>) -> int {
    valor_digitos(s.subrange(6, 10))
}

/// A sequence of digits holds no slash.
proof fn lema_digitos_sin_barra(s: Seq<char>, sep: char)
    requires
        todos_digitos(s),
        !es_digito(sep),
    ensures
        forall|k: int| 0 <= k < s.len() ==> s[k] != sep,
{
}

/// Splitting a separator-free sequence yields that one part.
proof fn lema_dividir_sin_sep(s: Seq<char>, sep: char)
    requires
        forall|k: int| 0 <= k < s.len() ==> s[k] != sep,
    ensures
        dividir(s, sep) == seq![s],
    decreases s.len(),
{
    if s.len() == 0 {
        assert(s =~= Seq::<char>::empty());
        assert(dividir(s, sep) =~= seq![s]);
    } else {
        assert(forall|k: int|
            0 <= k < s.drop_last().len() ==> #[trigger] s.drop_last()[k] != sep);
        lema_dividir_sin_sep(s.drop_last(), sep);
        assert(s[s.len() - 1] != sep);
        assert(s.last() != sep);
        let d = dividir(s.drop_last(), sep);
        assert(d == seq![s.drop_last()]);
        assert(dividir(s, sep) == d.update(d.len() - 1, d.last().push(s.last())));
        assert(d.last() == s.drop_last());
        assert(s.drop_last().push(s.last()) =~= s);
        assert(d.update(0, s) =~= seq![s]);
    }
}

/// Appending a separator and a separator-free part appends one part to the
/// split.
proof fn lema_dividir_parte_final(t: Seq<char>, p: Seq<char>, sep: char)
    requires
        forall|k: int| 0 <= k < p.len() ==> p[k] != sep,
    ensures
        dividir(t + seq![sep] + p, sep) == dividir(t, sep).push(p),
    decreases p.len(),
{
    if p.len() == 0 {
        let u = t + seq![sep] + p;
        assert(u.last() == sep);
        assert(u.drop_last() =~= t);
        assert(p =~= Seq::<char>::empty());
        assert(dividir(u, sep) == dividir(u.drop_last(), sep).push(Seq::<char>::empty()));
        assert(dividir(u, sep) =~= dividir(t, sep).push(p));
    } else {
        let u = t + seq![sep] + p;
        assert(u.last() == p.last());
        assert(u.last() != sep);
        assert(u.drop_last() =~= t + seq![sep] + p.drop_last());
        assert(forall|k: int|
            0 <= k < p.drop_last().len() ==> #[trigger] p.drop_last()[k] != sep);
        lema_dividir_parte_final(t, p.drop_last(), sep);
        let d = dividir(t + seq![sep] + p.drop_last(), sep);
        lema_dividir_no_vacio(t, sep);
        assert(d == dividir(t, sep).push(p.drop_last()));
        assert(d.last() == p.drop_last());
        assert(d.update(d.len() - 1, d.last().push(p.last())) =~= dividir(t, sep).push(
            p.drop_last().push(p.last()),
        ));
        assert(p.drop_last().push(p.last()) =~= p);
    }
}

/// A well-formed date splits into exactly its three components.
proof fn lema_dividir_fecha(s: Seq<char>)
    requires
        fecha_bien_formada(s),
    ensures
        dividir(s, '/') == seq![s.subrange(0, 2), s.subrange(3, 5), s.subrange(6, 10)],
{
    let dd = s.subrange(0, 2);
    let mm = s.subrange(3, 5);
    let yyyy = s.subrange(6, 10);
    assert(!es_digito('/'));
    lema_digitos_sin_barra(dd, '/');
    lema_digitos_sin_barra(mm, '/');
    lema_digitos_sin_barra(yyyy, '/');
    lema_dividir_sin_sep(dd, '/');
    lema_dividir_parte_final(dd, mm, '/');
    assert(dd + seq!['/'] + mm =~= s.subrange(0, 5));
    lema_dividir_parte_final(s.subrange(0, 5), yyyy, '/');
    assert(s.subrange(0, 5) + seq!['/'] + yyyy =~= s);
    assert(seq![dd].push(mm).push(yyyy) =~= seq![dd, mm, yyyy]);
}

/// Law: a well-formed date has the key `YYYY*10000 + MM*100 + DD`.
pub proof fn lema_clave_fecha_bien_formada(s: Seq<char>)
    requires
        fecha_bien_formada(s),
    ensures
        clave_fecha_spec(s) == Some(anio_de(s) * 10000 + mes_de(s) * 100 + dia_de(s)),
{
    lema_dividir_fecha(s);
}

/// Law: on well-formed dates the key order is exactly the calendar order:
/// years first, then months, then days.
pub proof fn lema_orden_fecha_calendario(a: Seq<char>, b: Seq<char>)
    requires
        fecha_bien_formada(a),
        fecha_bien_formada(b),
    ensures
        clave_fecha_spec(a) is Some,
        clave_fecha_spec(b) is Some,
        (clave_fecha_spec(a)->Some_0 <= clave_fecha_spec(b)->Some_0) == (anio_de(a) < anio_de(b)
            || (anio_de(a) == anio_de(b) && (mes_de(a) < mes_de(b) || (mes_de(a) == mes_de(b)
            && dia_de(a) <= dia_de(b))))),
{
    lema_clave_fecha_bien_formada(a);
    lema_clave_fecha_bien_formada(b);
    lema_pot10_valores();
    lema_valor_cota(a.subrange(0, 2));
    lema_valor_cota(a.subrange(3, 5));
    lema_valor_cota(a.subrange(6, 10));
    lema_valor_cota(b.subrange(0, 2));
    lema_valor_cota(b.subrange(3, 5));
    lema_valor_cota(b.subrange(6, 10));
}

} // verus!
