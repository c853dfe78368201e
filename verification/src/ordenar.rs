//! The sorter: orders a collection of issued-invoice records in place by a
//! caller-selected column, ascending. Every comparator is total: a record
//! whose date or amount has no key is placed after every record that has
//! one, so malformed or sentinel fields can never abort a run.

use vstd::prelude::*;
use vstd::seq_lib::*;
use vstd::multiset::Multiset;
use crate::claves::{clave_fecha_spec, clave_importe_spec, clave_fecha, clave_importe};
use crate::extraer::PdfInfoEm;
use crate::texto::cadenas_iguales;

verus! {

broadcast use {vstd::multiset::group_multiset_axioms, vstd::seq_lib::group_to_multiset_ensures};

/// Lexicographic order on character sequences by code point; the empty
/// sequence comes first and a proper prefix precedes its extensions.
pub open spec fn cadena_le(a: Seq<char>, b: Seq<char>) -> bool
    decreases a.len(),
{
    if a.len() == 0 {
        true
    } else if b.len() == 0 {
        false
    } else if a[0] == b[0] {
        cadena_le(a.drop_first(), b.drop_first())
    } else {
        (a[0] as int) < (b[0] as int)
    }
}

/// Law: the lexicographic order is total.
pub proof fn lema_cadena_le_total(a: Seq<char>, b: Seq<char>)
    ensures
        cadena_le(a, b) || cadena_le(b, a),
    decreases a.len(),
{
    if a.len() == 0 {
        assert(cadena_le(a, b));
    } else if b.len() == 0 {
        assert(cadena_le(b, a));
    } else if a[0] == b[0] {
        lema_cadena_le_total(a.drop_first(), b.drop_first());
    } else {
        assert((a[0] as int) != (b[0] as int));
    }
}

/// Law: the lexicographic order is transitive.
pub proof fn lema_cadena_le_transitiva(a: Seq<char>, b: Seq<char>, c: Seq<char>)
    requires
        cadena_le(a, b),
        cadena_le(b, c),
    ensures
        cadena_le(a, c),
    decreases a.len(),
{
    if a.len() > 0 && b.len() > 0 && c.len() > 0 && a[0] == b[0] && b[0] == c[0] {
        lema_cadena_le_transitiva(a.drop_first(), b.drop_first(), c.drop_first());
    }
}

/// Law: the lexicographic order is antisymmetric.
pub proof fn lema_cadena_le_antisimetrica(a: Seq<char>, b: Seq<char>)
    requires
        cadena_le(a, b),
        cadena_le(b, a),
    ensures
        a == b,
    decreases a.len(),
{
    if a.len() == 0 {
        assert(b.len() == 0);
        assert(a =~= b);
    } else {
        assert(b.len() > 0);
        assert(a[0] == b[0]);
        lema_cadena_le_antisimetrica(a.drop_first(), b.drop_first());
        assert forall|i: int| 0 <= i < a.len() implies a[i] == b[i] by {
            if i > 0 {
                assert(a[i] == a.drop_first()[i - 1]);
                assert(b[i] == b.drop_first()[i - 1]);
            }
        }
        assert(a =~= b);
    }
}

/// Compares two strings in the lexicographic order.
pub fn comparar_cadenas(a: &str, b: &str) -> (r: bool)
    ensures
        r == cadena_le(a@, b@),
{
    let na = a.unicode_len();
    let nb = b.unicode_len();
    let mut i: usize = 0;
    proof {
        assert(a@.skip(0) =~= a@);
        assert(b@.skip(0) =~= b@);
    }
    loop
        invariant
            0 <= i <= na,
            0 <= i <= nb,
            na == a@.len(),
            nb == b@.len(),
            cadena_le(a@, b@) == cadena_le(a@.skip(i as int), b@.skip(i as int)),
        decreases na - i,
    {
        if i == na {
            return true;
        }
        if i == nb {
            return false;
        }
        let ca = a.get_char(i);
        let cb = b.get_char(i);
        if ca != cb {
            let r = (ca as u32) < (cb as u32);
            proof {
                assert(r == ((ca as int) < (cb as int)));
            }
            return r;
        }
        proof {
            assert(a@.skip(i as int).drop_first() =~= a@.skip(i as int + 1));
            assert(b@.skip(i as int).drop_first() =~= b@.skip(i as int + 1));
        }
        i = i + 1;
    }
}

/// Order on optional keys: keyless values sort after every keyed value and
/// tie with one another.
pub open spec fn opcion_le(a: Option<int>, b: Option<int>) -> bool {
    match (a, b) {
        (Option::None, _) => b is None,
        (Option::Some(x), Option::None) => true,
        (Option::Some(x), Option::Some(y)) => x <= y,
    }
}

/// The column an issued-invoice collection can be sorted by.
#[derive(Clone, Copy, Debug, PartialEq, Eq, Structural)]
pub enum Columna {
    Fecha,
    Importe,
    Cliente,
}

/// The comparator of the chosen column, applied to two records.
pub open spec fn registro_le(col: Columna, a: PdfInfoEm, b: PdfInfoEm) -> bool {
    match col {
        Columna::Fecha => opcion_le(clave_fecha_spec(a.fecha@), clave_fecha_spec(b.fecha@)),
        Columna::Importe => opcion_le(clave_importe_spec(a.total@), clave_importe_spec(b.total@)),
        Columna::Cliente => cadena_le(a.cliente@, b.cliente@),
    }
}

/// Law: each column's comparator is total.
pub proof fn lema_registro_le_total(col: Columna, a: PdfInfoEm, b: PdfInfoEm)
    ensures
        registro_le(col, a, b) || registro_le(col, b, a),
{
    if col is Cliente {
        lema_cadena_le_total(a.cliente@, b.cliente@);
    }
}

/// Law: each column's comparator is transitive.
pub proof fn lema_registro_le_transitiva(col: Columna, a: PdfInfoEm, b: PdfInfoEm, c: PdfInfoEm)
    requires
        registro_le(col, a, b),
        registro_le(col, b, c),
    ensures
        registro_le(col, a, c),
{
    if col is Cliente {
        lema_cadena_le_transitiva(a.cliente@, b.cliente@, c.cliente@);
    }
}

/// Compares two records by the chosen column.
fn comparar_registros(col: Columna, a: &PdfInfoEm, b: &PdfInfoEm) -> (r: bool)
    ensures
        r == registro_le(col, *a, *b),
{
    match col {
        Columna::Fecha => {
            let ka = clave_fecha(a.fecha.as_str());
            let kb = clave_fecha(b.fecha.as_str());
            match (ka, kb) {
                (Option::None, Option::Some(_)) => false,
                (Option::Some(x), Option::Some(y)) => x <= y,
                _ => true,
            }
        },
        Columna::Importe => {
            let ka = clave_importe(a.total.as_str());
            let kb = clave_importe(b.total.as_str());
            match (ka, kb) {
                (Option::None, Option::Some(_)) => false,
                (Option::Some(x), Option::Some(y)) => x <= y,
                _ => true,
            }
        },
        Columna::Cliente => comparar_cadenas(a.cliente.as_str(), b.cliente.as_str()),
    }
}

/// Whether `s` is sorted ascending by the chosen column.
pub open spec fn ordenada(col: Columna, s: Seq<PdfInfoEm>) -> bool {
    forall|i: int, j: int| 0 <= i < j < s.len() ==> registro_le(col, s[i], s[j])
}

/// An insertion point found by the linear scan keeps the sequence sorted.
proof fn lema_insercion_ordenada(col: Columna, antes: Seq<PdfInfoEm>, pos: int, x: PdfInfoEm)
    requires
        ordenada(col, antes),
        0 <= pos <= antes.len(),
        forall|k: int| 0 <= k < pos ==> registro_le(col, antes[k], x),
        pos < antes.len() ==> registro_le(col, x, antes[pos]),
    ensures
        ordenada(col, antes.insert(pos, x)),
{
    let nueva = antes.insert(pos, x);
    antes.insert_ensures(pos, x);
    assert forall|p: int, q: int| 0 <= p < q < nueva.len() implies registro_le(
        col,
        nueva[p],
        nueva[q],
    ) by {
        if q < pos {
            assert(nueva[p] == antes[p] && nueva[q] == antes[q]);
        } else if p < pos && q == pos {
            assert(nueva[p] == antes[p]);
            assert(registro_le(col, antes[p], x));
        } else if p < pos && q > pos {
            assert(nueva[p] == antes[p] && nueva[q] == antes[q - 1]);
        } else if p == pos {
            assert(nueva[p] == x && nueva[q] == antes[q - 1]);
            assert(registro_le(col, x, antes[pos]));
            if q - 1 > pos {
                assert(registro_le(col, antes[pos], antes[q - 1]));
                lema_registro_le_transitiva(col, x, antes[pos], antes[q - 1]);
            }
        } else {
            assert(nueva[p] == antes[p - 1] && nueva[q] == antes[q - 1]);
        }
    }
}

/// Inserts `x` into the sorted vector `v`, keeping it sorted.
fn insertar_ordenado(v: &mut Vec<PdfInfoEm>, x: PdfInfoEm, col: Columna)
    requires
        ordenada(col, old(v)@),
    ensures
        ordenada(col, final(v)@),
        final(v)@.to_multiset() == old(v)@.to_multiset().insert(x),
{
    let ghost x0 = x;
    let mut i: usize = 0;
    while i < v.len() && comparar_registros(col, &v[i], &x)
        invariant
            0 <= i <= v@.len(),
            v == old(v),
            x == x0,
            forall|k: int| 0 <= k < i ==> registro_le(col, v@[k], x0),
        decreases v@.len() - i,
    {
        i = i + 1;
    }
    let ghost antes = v@;
    let ghost pos = i as int;
    proof {
        if pos < antes.len() {
            assert(!registro_le(col, antes[pos], x0));
            lema_registro_le_total(col, antes[pos], x0);
        }
        lema_insercion_ordenada(col, antes, pos, x0);
    }
    v.insert(i, x);
    proof {
        assert(v@ == antes.insert(pos, x0));
        to_multiset_insert(antes, pos, x0);
    }
}

/// Sorts `v` ascending by the chosen column: the result is ordered and is a
/// rearrangement of the input.
fn ordenar_por(v: &mut Vec<PdfInfoEm>, col: Columna)
    ensures
        ordenada(col, final(v)@),
        final(v)@.to_multiset() == old(v)@.to_multiset(),
{
    let mut salida: Vec<PdfInfoEm> = Vec::new();
    proof {
        salida@.to_multiset_ensures();
        assert(salida@.to_multiset() =~= Multiset::<PdfInfoEm>::empty());
        assert(salida@.to_multiset().add(v@.to_multiset()) =~= old(v)@.to_multiset());
    }
    loop
        invariant
            ordenada(col, salida@),
            salida@.to_multiset().add(v@.to_multiset()) == old(v)@.to_multiset(),
        ensures
            v@.len() == 0,
            ordenada(col, salida@),
            salida@.to_multiset().add(v@.to_multiset()) == old(v)@.to_multiset(),
        decreases v@.len(),
    {
        let ghost resto = v@;
        let ghost hechas = salida@;
        match v.pop() {
            Some(x) => {
                proof {
                    assert(resto.drop_last().push(resto.last()) =~= resto);
                    to_multiset_build(resto.drop_last(), resto.last());
                }
                insertar_ordenado(&mut salida, x, col);
                proof {
                    assert(salida@.to_multiset().add(v@.to_multiset()) =~= old(
                        v,
                    )@.to_multiset());
                }
            },
            None => {
                break ;
            },
        }
    }
    proof {
        v@.to_multiset_ensures();
        assert(v@.to_multiset() =~= Multiset::<PdfInfoEm>::empty());
        assert(salida@.to_multiset().add(v@.to_multiset()) =~= salida@.to_multiset());
    }
    *v = salida;
}

/// The column named by a sort-column string, when it names one.
pub open spec fn columna_de(c: Seq<char>) -> Option<Columna> {
    if c == "Date"@ {
        Some(Columna::Fecha)
    } else if c == "Amount"@ {
        Some(Columna::Importe)
    } else if c == "Client"@ {
        Some(Columna::Cliente)
    } else {
        None
    }
}

/// Sorts the collection in place, ascending, by the named column (`Date`,
/// `Amount` or `Client`). An unknown column name sorts nothing and returns
/// `false`, so the caller can report it.
pub fn ordenar(resultados: &mut Vec<PdfInfoEm>, col: &str) -> (ok: bool)
    ensures
        ok == (columna_de(col@) is Some),
        !ok ==> final(resultados)@ == old(resultados)@,
        ok ==> final(resultados)@.to_multiset() == old(resultados)@.to_multiset(),
        ok ==> ordenada(columna_de(col@)->Some_0, final(resultados)@),
{
    if cadenas_iguales(col, "Date") {
        ordenar_por(resultados, Columna::Fecha);
        true
    } else if cadenas_iguales(col, "Amount") {
        ordenar_por(resultados, Columna::Importe);
        true
    } else if cadenas_iguales(col, "Client") {
        ordenar_por(resultados, Columna::Cliente);
        true
    } else {
        false
    }
}

/// Law: after sorting by Amount, records whose amounts have keys stand in
/// ascending numeric order.
pub proof fn lema_importe_numerico_ascendente(s: Seq<PdfInfoEm>, i: int, j: int)
    requires
        ordenada(Columna::Importe, s),
        0 <= i < j < s.len(),
        clave_importe_spec(s[i].total@) is Some,
        clave_importe_spec(s[j].total@) is Some,
    ensures
        clave_importe_spec(s[i].total@)->Some_0 <= clave_importe_spec(s[j].total@)->Some_0,
{
    assert(registro_le(Columna::Importe, s[i], s[j]));
}

/// Law: after sorting by Amount, a record whose amount has no key (the
/// sentinel among them) is followed only by records without keys: keyless
/// records always stand at the end, in every run.
pub proof fn lema_importe_centinela_al_final(s: Seq<PdfInfoEm>, i: int, j: int)
    requires
        ordenada(Columna::Importe, s),
        0 <= i < j < s.len(),
        clave_importe_spec(s[i].total@) is None,
    ensures
        clave_importe_spec(s[j].total@) is None,
{
    assert(registro_le(Columna::Importe, s[i], s[j]));
}

/// Law: after sorting by Date, records with well-formed dates stand in
/// calendar order.
pub proof fn lema_fecha_calendario_ascendente(s: Seq<PdfInfoEm>, i: int, j: int)
    requires
        ordenada(Columna::Fecha, s),
        0 <= i < j < s.len(),
        crate::claves::fecha_bien_formada(s[i].fecha@),
        crate::claves::fecha_bien_formada(s[j].fecha@),
    ensures
        crate::claves::anio_de(s[i].fecha@) < crate::claves::anio_de(s[j].fecha@)
            || (crate::claves::anio_de(s[i].fecha@) == crate::claves::anio_de(s[j].fecha@) && (
            crate::claves::mes_de(s[i].fecha@) < crate::claves::mes_de(s[j].fecha@) || (
            crate::claves::mes_de(s[i].fecha@) == crate::claves::mes_de(s[j].fecha@)
                && crate::claves::dia_de(s[i].fecha@) <= crate::claves::dia_de(s[j].fecha@)))),
{
    assert(registro_le(Columna::Fecha, s[i], s[j]));
    crate::claves::lema_orden_fecha_calendario(s[i].fecha@, s[j].fecha@);
}

/// Law: after sorting by Client, the client fields stand in lexicographic
/// order.
pub proof fn lema_cliente_lexicografico(s: Seq<PdfInfoEm>, i: int, j: int)
    requires
        ordenada(Columna::Cliente, s),
        0 <= i < j < s.len(),
    ensures
        cadena_le(s[i].cliente@, s[j].cliente@),
{
    assert(registro_le(Columna::Cliente, s[i], s[j]));
}

} // verus!
