//! The exporter: renders a sorted collection of issued-invoice records as a
//! tab-delimited table (for the clipboard) and as CSV text with standard
//! quoting. Both renderers sort first and then write the rows in order.

use vstd::prelude::*;
use vstd::string::*;
use crate::extraer::PdfInfoEm;
use crate::ordenar::{ordenar, ordenada, columna_de};

verus! {

/// One tab-delimited row of the clipboard table.
pub open spec fn fila_tabla(r: PdfInfoEm) -> Seq<char> {
    r.fecha@ + "\t"@ + r.total@ + "\t"@ + r.cliente@ + "\n"@
}

/// The tab-delimited rows of a collection, in order.
pub open spec fn filas_tabla(rs: Seq<PdfInfoEm>) -> Seq<char>
    decreases rs.len(),
{
    if rs.len() == 0 {
        Seq::<char>::empty()
    } else {
        filas_tabla(rs.drop_last()) + fila_tabla(rs.last())
    }
}

/// The whole clipboard table: a fixed header line, then one row per record.
pub open spec fn tabla_spec(rs: Seq<PdfInfoEm>) -> Seq<char> {
    "Date\tAmount\tClient\n"@ + filas_tabla(rs)
}

/// Sorts the collection by the named column and renders it as a
/// tab-delimited table with a header line; an unknown column name leaves
/// the collection unsorted but still renders it.
pub fn formatear_como_tabla(resultados: &mut Vec<PdfInfoEm>, col: &str) -> (t: String)
    ensures
        t@ == tabla_spec(final(resultados)@),
        columna_de(col@) is Some ==> final(resultados)@.to_multiset() == old(
            resultados,
        )@.to_multiset() && ordenada(columna_de(col@)->Some_0, final(resultados)@),
        columna_de(col@) is None ==> final(resultados)@ == old(resultados)@,
{
    let _ = ordenar(resultados, col);
    let mut t = String::from_str("Date\tAmount\tClient\n");
    let ghost listos = resultados@;
    let mut i: usize = 0;
    proof {
        assert(listos.take(0) =~= Seq::<PdfInfoEm>::empty());
    }
    while i < resultados.len()
        invariant
            0 <= i <= listos.len(),
            resultados@ == listos,
            t@ == tabla_spec(listos.take(i as int)),
        decreases listos.len() - i,
    {
        t.append(resultados[i].fecha.as_str());
        t.append("\t");
        t.append(resultados[i].total.as_str());
        t.append("\t");
        t.append(resultados[i].cliente.as_str());
        t.append("\n");
        proof {
            assert(listos.take(i as int + 1).drop_last() =~= listos.take(i as int));
            assert(listos.take(i as int + 1).last() == listos[i as int]);
            assert(t@ =~= tabla_spec(listos.take(i as int + 1)));
        }
        i = i + 1;
    }
    proof {
        assert(listos.take(listos.len() as int) =~= listos);
    }
    t
}

/// Whether a CSV field must be quoted: it holds a quote, a delimiter or a
/// line break.
pub open spec fn caracter_especial(c: char) -> bool {
    c == '"' || c == ',' || c == '\n' || c == '\r'
}

/// Whether any character of the field forces quoting.
pub open spec fn necesita_comillas(f: Seq<char>) -> bool {
    exists|k: int| 0 <= k < f.len() && caracter_especial(#[trigger] f[k])
}

/// The field's characters with every quote doubled.
pub open spec fn duplicar_comillas(f: Seq<char>) -> Seq<char>
    decreases f.len(),
{
    if f.len() == 0 {
        Seq::<char>::empty()
    } else {
        duplicar_comillas(f.drop_last()) + (if f.last() == '"' {
            seq!['"', '"']
        } else {
            seq![f.last()]
        })
    }
}

/// A field as CSV writes it: quoted with doubled quotes when it holds a
/// special character, verbatim otherwise.
pub open spec fn campo_csv(f: Seq<char>) -> Seq<char> {
    if necesita_comillas(f) {
        seq!['"'] + duplicar_comillas(f) + seq!['"']
    } else {
        f
    }
}

/// One CSV record: the three fields escaped, comma-separated, ending in a
/// line break.
pub open spec fn fila_csv(r: PdfInfoEm) -> Seq<char> {
    campo_csv(r.fecha@) + seq![','] + campo_csv(r.total@) + seq![','] + campo_csv(r.cliente@)
        + seq!['\n']
}

/// The CSV records of a collection, in order.
pub open spec fn filas_csv(rs: Seq<PdfInfoEm>) -> Seq<char>
    decreases rs.len(),
{
    if rs.len() == 0 {
        Seq::<char>::empty()
    } else {
        filas_csv(rs.drop_last()) + fila_csv(rs.last())
    }
}

/// The whole CSV document: the fixed header record, then one record per row.
pub open spec fn csv_spec(rs: Seq<PdfInfoEm>) -> Seq<char> {
    "Date,Amount,Client\n"@ + filas_csv(rs)
}

/// Escapes one field as CSV writes it.
fn escapar_campo(f: &str) -> (r: String)
    ensures
        r@ == campo_csv(f@),
{
    let n = f.unicode_len();
    let mut hay_especial = false;
    let mut i: usize = 0;
    while i < n
        invariant
            0 <= i <= n,
            n == f@.len(),
            hay_especial == exists|k: int|
                0 <= k < i && caracter_especial(#[trigger] f@[k]),
        decreases n - i,
    {
        let c = f.get_char(i);
        if c == '"' || c == ',' || c == '\n' || c == '\r' {
            hay_especial = true;
        }
        i = i + 1;
    }
    if !hay_especial {
        return String::from_str(f);
    }
    let mut r = String::new();
    r.push('"');
    let mut j: usize = 0;
    proof {
        assert(duplicar_comillas(f@.take(0)) =~= Seq::<char>::empty());
        assert(r@ =~= seq!['"'] + duplicar_comillas(f@.take(0)));
    }
    while j < n
        invariant
            0 <= j <= n,
            n == f@.len(),
            r@ == seq!['"'] + duplicar_comillas(f@.take(j as int)),
        decreases n - j,
    {
        let c = f.get_char(j);
        proof {
            assert(f@.take(j as int + 1).drop_last() =~= f@.take(j as int));
            assert(f@.take(j as int + 1).last() == f@[j as int]);
        }
        if c == '"' {
            r.push('"');
            r.push('"');
        } else {
            r.push(c);
        }
        proof {
            assert(r@ =~= seq!['"'] + duplicar_comillas(f@.take(j as int + 1)));
        }
        j = j + 1;
    }
    r.push('"');
    proof {
        assert(f@.take(n as int) =~= f@);
        assert(r@ =~= seq!['"'] + duplicar_comillas(f@) + seq!['"']);
    }
    r
}

/// Sorts the collection by the named column and renders it as CSV text with
/// the fixed header record; an unknown column name leaves the collection
/// unsorted but still renders it. The caller writes the text out.
pub fn crear_tabla(resultados: &mut Vec<PdfInfoEm>, col: &str) -> (csv: String)
    ensures
        csv@ == csv_spec(final(resultados)@),
        columna_de(col@) is Some ==> final(resultados)@.to_multiset() == old(
            resultados,
        )@.to_multiset() && ordenada(columna_de(col@)->Some_0, final(resultados)@),
        columna_de(col@) is None ==> final(resultados)@ == old(resultados)@,
{
    let _ = ordenar(resultados, col);
    let mut csv = String::from_str("Date,Amount,Client\n");
    let ghost listos = resultados@;
    let mut i: usize = 0;
    proof {
        assert(listos.take(0) =~= Seq::<PdfInfoEm>::empty());
    }
    while i < resultados.len()
        invariant
            0 <= i <= listos.len(),
            resultados@ == listos,
            csv@ == csv_spec(listos.take(i as int)),
        decreases listos.len() - i,
    {
        let campo_fecha = escapar_campo(resultados[i].fecha.as_str());
        let campo_total = escapar_campo(resultados[i].total.as_str());
        let campo_cliente = escapar_campo(resultados[i].cliente.as_str());
        csv.append(campo_fecha.as_str());
        csv.append(",");
        csv.append(campo_total.as_str());
        csv.append(",");
        csv.append(campo_cliente.as_str());
        csv.append("\n");
        proof {
            assert(listos.take(i as int + 1).drop_last() =~= listos.take(i as int));
            assert(listos.take(i as int + 1).last() == listos[i as int]);
            reveal_strlit(",");
            reveal_strlit("\n");
            assert(","@ =~= seq![',']);
            assert("\n"@ =~= seq!['\n']);
            assert(csv@ =~= csv_spec(listos.take(i as int + 1)));
        }
        i = i + 1;
    }
    proof {
        assert(listos.take(listos.len() as int) =~= listos);
    }
    csv
}

/// Reads the body of a quoted field, after its opening quote: a doubled
/// quote stands for one quote, a lone quote closes the field, and an
/// unterminated field fails.
pub open spec fn leer_comillado(t: Seq<char>) -> Option<(Seq<char>, Seq<char>)>
    decreases t.len(),
{
    if t.len() == 0 {
        None
    } else if t[0] == '"' {
        if t.len() >= 2 && t[1] == '"' {
            match leer_comillado(t.skip(2)) {
                Some(par) => Some((seq!['"'] + par.0, par.1)),
                None => None,
            }
        } else {
            Some((Seq::<char>::empty(), t.skip(1)))
        }
    } else {
        match leer_comillado(t.skip(1)) {
            Some(par) => Some((seq![t[0]] + par.0, par.1)),
            None => None,
        }
    }
}

/// Reads an unquoted field: everything before the first delimiter or line
/// break.
pub open spec fn leer_simple(t: Seq<char>) -> (Seq<char>, Seq<char>)
    decreases t.len(),
{
    if t.len() == 0 || t[0] == ',' || t[0] == '\n' {
        (Seq::<char>::empty(), t)
    } else {
        let par = leer_simple(t.skip(1));
        (seq![t[0]] + par.0, par.1)
    }
}

/// Reads one CSV field, quoted or not.
pub open spec fn analizar_campo(t: Seq<char>) -> Option<(Seq<char>, Seq<char>)> {
    if t.len() > 0 && t[0] == '"' {
        leer_comillado(t.skip(1))
    } else {
        Some(leer_simple(t))
    }
}

/// Reads one three-field CSV record, terminated by a line break.
pub open spec fn analizar_fila(t: Seq<char>) -> Option<(Seq<Seq<char>>, Seq<char>)> {
    match analizar_campo(t) {
        Some(par1) => {
            if par1.1.len() > 0 && par1.1[0] == ',' {
                match analizar_campo(par1.1.skip(1)) {
                    Some(par2) => {
                        if par2.1.len() > 0 && par2.1[0] == ',' {
                            match analizar_campo(par2.1.skip(1)) {
                                Some(par3) => {
                                    if par3.1.len() > 0 && par3.1[0] == '\n' {
                                        Some((seq![par1.0, par2.0, par3.0], par3.1.skip(1)))
                                    } else {
                                        None
                                    }
                                },
                                None => None,
                            }
                        } else {
                            None
                        }
                    },
                    None => None,
                }
            } else {
                None
            }
        },
        None => None,
    }
}

/// Reads exactly `n` CSV records and returns them with the leftover text.
pub open spec fn analizar_tabla(t: Seq<char>, n: nat) -> Option<
    (Seq<Seq<Seq<char>>>, Seq<char>),
>
    decreases n,
{
    if n == 0 {
        Some((Seq::<Seq<Seq<char>>>::empty(), t))
    } else {
        match analizar_fila(t) {
            Some(par) => {
                match analizar_tabla(par.1, (n - 1) as nat) {
                    Some(resto) => Some((seq![par.0] + resto.0, resto.1)),
                    None => None,
                }
            },
            None => None,
        }
    }
}

/// The raw field values of one record, in column order.
pub open spec fn valores_fila(r: PdfInfoEm) -> Seq<Seq<char>> {
    seq![r.fecha@, r.total@, r.cliente@]
}

/// The raw field values of a collection, row by row.
pub open spec fn valores_filas(rs: Seq<PdfInfoEm>) -> Seq<Seq<Seq<char>>>
    decreases rs.len(),
{
    if rs.len() == 0 {
        Seq::<Seq<Seq<char>>>::empty()
    } else {
        seq![valores_fila(rs[0])] + valores_filas(rs.drop_first())
    }
}

proof fn lema_leer_simple(f: Seq<char>, rest: Seq<char>)
    requires
        !necesita_comillas(f),
        rest.len() > 0,
        rest[0] == ',' || rest[0] == '\n',
    ensures
        leer_simple(f + rest) == (f, rest),
    decreases f.len(),
{
    let t = f + rest;
    if f.len() == 0 {
        assert(t =~= rest);
        assert(f =~= Seq::<char>::empty());
    } else {
        assert(t[0] == f[0]);
        assert(!caracter_especial(f[0]));
        assert(t.len() > 0 && t[0] != ',' && t[0] != '\n');
        assert(t.skip(1) =~= f.drop_first() + rest);
        assert(!necesita_comillas(f.drop_first())) by {
            if necesita_comillas(f.drop_first()) {
                let k = choose|k: int|
                    0 <= k < f.drop_first().len() && caracter_especial(f.drop_first()[k]);
                assert(f.drop_first()[k] == f[k + 1]);
                assert(caracter_especial(f[k + 1]));
            }
        }
        lema_leer_simple(f.drop_first(), rest);
        assert(seq![f[0]] + f.drop_first() =~= f);
    }
}

/// The cons form of `duplicar_comillas`.
proof fn lema_duplicar_cons(f: Seq<char>)
    requires
        f.len() > 0,
    ensures
        duplicar_comillas(f) == (if f[0] == '"' {
            seq!['"', '"']
        } else {
            seq![f[0]]
        }) + duplicar_comillas(f.drop_first()),
    decreases f.len(),
{
    let cabeza: Seq<char> = if f[0] == '"' {
        seq!['"', '"']
    } else {
        seq![f[0]]
    };
    if f.len() == 1 {
        assert(f.drop_last() =~= Seq::<char>::empty());
        assert(f.drop_first() =~= Seq::<char>::empty());
        assert(f.last() == f[0]);
        assert(duplicar_comillas(f) =~= cabeza + duplicar_comillas(f.drop_first()));
    } else {
        lema_duplicar_cons(f.drop_last());
        assert(f.drop_last()[0] == f[0]);
        assert(f.drop_last().drop_first() =~= f.drop_first().drop_last());
        assert(f.drop_first().last() == f.last());
        assert(duplicar_comillas(f) == duplicar_comillas(f.drop_last()) + (if f.last() == '"' {
            seq!['"', '"']
        } else {
            seq![f.last()]
        }));
        assert(duplicar_comillas(f.drop_first()) == duplicar_comillas(f.drop_first().drop_last())
            + (if f.drop_first().last() == '"' {
            seq!['"', '"']
        } else {
            seq![f.drop_first().last()]
        }));
        assert(duplicar_comillas(f) =~= cabeza + duplicar_comillas(f.drop_first()));
    }
}

proof fn lema_leer_comillado(f: Seq<char>, rest: Seq<char>)
    requires
        rest.len() > 0,
        rest[0] != '"',
    ensures
        leer_comillado(duplicar_comillas(f) + seq!['"'] + rest) == Some((f, rest)),
    decreases f.len(),
{
    let t = duplicar_comillas(f) + seq!['"'] + rest;
    if f.len() == 0 {
        assert(duplicar_comillas(f) =~= Seq::<char>::empty());
        assert(t =~= seq!['"'] + rest);
        assert(t[0] == '"');
        assert(t.len() >= 2 ==> t[1] == rest[0]);
        assert(t.skip(1) =~= rest);
        assert(f =~= Seq::<char>::empty());
    } else {
        lema_duplicar_cons(f);
        lema_leer_comillado(f.drop_first(), rest);
        if f[0] == '"' {
            assert(t =~= seq!['"', '"'] + (duplicar_comillas(f.drop_first()) + seq!['"']
                + rest));
            assert(t[0] == '"' && t.len() >= 2 && t[1] == '"');
            assert(t.skip(2) =~= duplicar_comillas(f.drop_first()) + seq!['"'] + rest);
            assert(seq!['"'] + f.drop_first() =~= f);
        } else {
            assert(t =~= seq![f[0]] + (duplicar_comillas(f.drop_first()) + seq!['"'] + rest));
            assert(t[0] == f[0]);
            assert(t[0] != '"');
            assert(t.skip(1) =~= duplicar_comillas(f.drop_first()) + seq!['"'] + rest);
            assert(seq![f[0]] + f.drop_first() =~= f);
        }
    }
}

proof fn lema_analizar_campo(f: Seq<char>, rest: Seq<char>)
    requires
        rest.len() > 0,
        rest[0] == ',' || rest[0] == '\n',
    ensures
        analizar_campo(campo_csv(f) + rest) == Some((f, rest)),
{
    let t = campo_csv(f) + rest;
    if necesita_comillas(f) {
        assert(t =~= seq!['"'] + (duplicar_comillas(f) + seq!['"'] + rest));
        assert(t[0] == '"');
        assert(t.skip(1) =~= duplicar_comillas(f) + seq!['"'] + rest);
        lema_leer_comillado(f, rest);
    } else {
        assert(t =~= f + rest);
        if f.len() == 0 {
            assert(t[0] == rest[0]);
            assert(t[0] != '"');
        } else {
            assert(t[0] == f[0]);
            assert(!caracter_especial(f[0]));
            assert(t[0] != '"');
        }
        lema_leer_simple(f, rest);
    }
}

/// One rendered record parses back to exactly its three field values.
proof fn lema_analizar_fila(f1: Seq<char>, f2: Seq<char>, f3: Seq<char>, rest: Seq<char>)
    ensures
        analizar_fila(
            campo_csv(f1) + seq![','] + campo_csv(f2) + seq![','] + campo_csv(f3) + seq!['\n']
                + rest,
        ) == Some((seq![f1, f2, f3], rest)),
{
    let t = campo_csv(f1) + seq![','] + campo_csv(f2) + seq![','] + campo_csv(f3) + seq!['\n']
        + rest;
    let r1 = seq![','] + campo_csv(f2) + seq![','] + campo_csv(f3) + seq!['\n'] + rest;
    let r2 = seq![','] + campo_csv(f3) + seq!['\n'] + rest;
    let r3 = seq!['\n'] + rest;
    assert(t =~= campo_csv(f1) + r1);
    lema_analizar_campo(f1, r1);
    assert(r1[0] == ',');
    assert(r1.skip(1) =~= campo_csv(f2) + r2);
    lema_analizar_campo(f2, r2);
    assert(r2[0] == ',');
    assert(r2.skip(1) =~= campo_csv(f3) + r3);
    lema_analizar_campo(f3, r3);
    assert(r3[0] == '\n');
    assert(r3.skip(1) =~= rest);
}

/// The cons form of `filas_csv`.
proof fn lema_filas_csv_cons(rs: Seq<PdfInfoEm>)
    requires
        rs.len() > 0,
    ensures
        filas_csv(rs) == fila_csv(rs[0]) + filas_csv(rs.drop_first()),
    decreases rs.len(),
{
    if rs.len() == 1 {
        assert(rs.drop_last() =~= Seq::<PdfInfoEm>::empty());
        assert(rs.drop_first() =~= Seq::<PdfInfoEm>::empty());
        assert(rs.last() == rs[0]);
        assert(filas_csv(rs) =~= fila_csv(rs[0]) + filas_csv(rs.drop_first()));
    } else {
        lema_filas_csv_cons(rs.drop_last());
        assert(rs.drop_last()[0] == rs[0]);
        assert(rs.drop_last().drop_first() =~= rs.drop_first().drop_last());
        assert(rs.drop_first().last() == rs.last());
        assert(filas_csv(rs) == filas_csv(rs.drop_last()) + fila_csv(rs.last()));
        assert(filas_csv(rs.drop_first()) == filas_csv(rs.drop_first().drop_last()) + fila_csv(
            rs.drop_first().last(),
        ));
        assert(filas_csv(rs) =~= fila_csv(rs[0]) + filas_csv(rs.drop_first()));
    }
}

/// The rendered records of a collection parse back to exactly its rows of
/// field values, leaving the rest of the text untouched.
proof fn lema_analizar_filas(rs: Seq<PdfInfoEm>, rest: Seq<char>)
    ensures
        analizar_tabla(filas_csv(rs) + rest, rs.len() as nat) == Some((valores_filas(rs), rest)),
    decreases rs.len(),
{
    if rs.len() == 0 {
        assert(filas_csv(rs) + rest =~= rest);
        assert(valores_filas(rs) =~= Seq::<Seq<Seq<char>>>::empty());
    } else {
        lema_filas_csv_cons(rs);
        let r = rs[0];
        let resto = filas_csv(rs.drop_first()) + rest;
        assert(filas_csv(rs) + rest =~= campo_csv(r.fecha@) + seq![','] + campo_csv(r.total@)
            + seq![','] + campo_csv(r.cliente@) + seq!['\n'] + resto);
        lema_analizar_fila(r.fecha@, r.total@, r.cliente@, resto);
        lema_analizar_filas(rs.drop_first(), rest);
        assert(seq![valores_fila(r)] + valores_filas(rs.drop_first()) =~= valores_filas(rs));
    }
}

/// Law: exporting a collection to CSV and parsing the text back yields the
/// header row and then exactly the collection's field values, in the same
/// row order, with nothing left over.
pub proof fn lema_csv_ida_y_vuelta(rs: Seq<PdfInfoEm>)
    ensures
        analizar_tabla(csv_spec(rs), (rs.len() + 1) as nat) == Some(
            (seq![seq!["Date"@, "Amount"@, "Client"@]] + valores_filas(rs), Seq::<char>::empty()),
        ),
{
    broadcast use vstd::string::group_string_axioms;

    reveal_strlit("Date,Amount,Client\n");
    reveal_strlit("Date");
    reveal_strlit("Amount");
    reveal_strlit("Client");
    assert(!necesita_comillas("Date"@)) by {
        if necesita_comillas("Date"@) {
            let k = choose|k: int| 0 <= k < 4 && caracter_especial("Date"@[k]);
        }
    }
    assert(!necesita_comillas("Amount"@)) by {
        if necesita_comillas("Amount"@) {
            let k = choose|k: int| 0 <= k < 6 && caracter_especial("Amount"@[k]);
        }
    }
    assert(!necesita_comillas("Client"@)) by {
        if necesita_comillas("Client"@) {
            let k = choose|k: int| 0 <= k < 6 && caracter_especial("Client"@[k]);
        }
    }
    assert(csv_spec(rs) =~= campo_csv("Date"@) + seq![','] + campo_csv("Amount"@) + seq![',']
        + campo_csv("Client"@) + seq!['\n'] + filas_csv(rs));
    lema_analizar_fila("Date"@, "Amount"@, "Client"@, filas_csv(rs));
    assert(filas_csv(rs) =~= filas_csv(rs) + Seq::<char>::empty());
    lema_analizar_filas(rs, Seq::<char>::empty());
}

} // verus!
