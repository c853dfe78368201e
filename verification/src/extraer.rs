//! Field extraction: pattern sets pull structured fields out of free-form
//! invoice text. A field whose pattern does not match becomes the sentinel
//! value and contributes one alert line; extraction itself never fails.

use vstd::prelude::*;
use vstd::string::*;
use crate::patrones::{busqueda_de, reemplazo_de, patron_coincide, buscar_patron, quitar_patron};
use crate::clasificar::{Empresa, clasificar_spec, buscar_empresa};
use crate::texto::{recortar_spec, quitar_etiqueta_spec, recortar, quitar_etiqueta};

verus! {

broadcast use vstd::string::group_string_axioms;

/// A record extracted from an issued invoice: all fields are raw text, each
/// either the extracted substring or the sentinel.
#[derive(Debug)]
pub struct PdfInfoEm {
    pub fecha: String,
    pub total: String,
    pub cliente: String,
}

/// A record extracted from a received invoice, with the same sentinel
/// convention as `PdfInfoEm`.
#[derive(Debug)]
pub struct PdfInfoRec {
    pub concepto: String,
    pub fecha: String,
    pub nif: String,
    pub empresa: String,
    pub base: String,
    pub iva: String,
    pub total: String,
}

/// The placeholder stored in a field whose pattern did not match.
pub open spec fn centinela() -> Seq<char> {
    "Not found"@
}

/// Executable form of the sentinel value.
pub fn centinela_exec() -> (s: String)
    ensures
        s@ == centinela(),
{
    String::from_str("Not found")
}

/// The alert line recorded when a field's pattern does not match.
pub open spec fn alerta_spec(campo: Seq<char>, doc: Seq<char>) -> Seq<char> {
    "ALERT: "@ + campo + " not found in document: "@ + doc
}

/// Builds the alert line for a missing field of a document.
pub fn alerta(campo: &str, doc: &str) -> (r: String)
    ensures
        r@ == alerta_spec(campo@, doc@),
{
    let mut s = String::from_str("ALERT: ");
    s.append(campo);
    s.append(" not found in document: ");
    s.append(doc);
    s
}

/// The alert line recorded when no vendor signature matches a document.
pub open spec fn alerta_empresa_spec(doc: Seq<char>) -> Seq<char> {
    "ALERT: Vendor not recognized in document: "@ + doc
}

/// Builds the alert line for an unrecognized vendor.
pub fn alerta_empresa(doc: &str) -> (r: String)
    ensures
        r@ == alerta_empresa_spec(doc@),
{
    let mut s = String::from_str("ALERT: Vendor not recognized in document: ");
    s.append(doc);
    s
}

/// The date field of an issued invoice: the first `DD/MM/YYYY`-shaped token.
pub open spec fn em_fecha_spec(t: Seq<char>) -> Seq<char> {
    match busqueda_de(r"\d{2}/\d{2}/\d{4}"@, t) {
        Some(m) => recortar_spec(m),
        None => centinela(),
    }
}

/// The total field of an issued invoice: the labeled amount token with the
/// 16-character label stripped and the remainder trimmed.
pub open spec fn em_total_spec(t: Seq<char>) -> Seq<char> {
    match busqueda_de(r"TOTAL A FACTURAR\s*[\d,.]+\d{2}€"@, t) {
        Some(m) => recortar_spec(quitar_etiqueta_spec(m, 16)),
        None => centinela(),
    }
}

/// The client field of an issued invoice: the labeled client name with the
/// 8-character label stripped and the remainder trimmed.
pub open spec fn em_cliente_spec(t: Seq<char>) -> Seq<char> {
    match busqueda_de(r"CLIENTE:\s*[a-zA-ZáéíóúñÑÁÉÍÓÚ., ]+"@, t) {
        Some(m) => recortar_spec(quitar_etiqueta_spec(m, 8)),
        None => centinela(),
    }
}

/// The alerts an issued invoice produces, in extraction order: date, total,
/// client; one alert per missing field.
pub open spec fn alertas_em_spec(t: Seq<char>, doc: Seq<char>) -> Seq<Seq<char>> {
    (if patron_coincide(r"\d{2}/\d{2}/\d{4}"@, t) {
        Seq::<Seq<char>>::empty()
    } else {
        seq![alerta_spec("Date"@, doc)]
    }) + (if patron_coincide(r"TOTAL A FACTURAR\s*[\d,.]+\d{2}€"@, t) {
        Seq::<Seq<char>>::empty()
    } else {
        seq![alerta_spec("Amount"@, doc)]
    }) + (if patron_coincide(r"CLIENTE:\s*[a-zA-ZáéíóúñÑÁÉÍÓÚ., ]+"@, t) {
        Seq::<Seq<char>>::empty()
    } else {
        seq![alerta_spec("Client"@, doc)]
    })
}

/// Extracts the three fields of an issued invoice from its text. Each field
/// is the trimmed match of its pattern with the label stripped, or the
/// sentinel when the pattern does not match; each missing field contributes
/// exactly one alert, in extraction order. `doc` identifies the document in
/// the alert lines.
pub fn procesar_pdf_em(text: &str, doc: &str) -> (r: (PdfInfoEm, Vec<String>))
    ensures
        r.0.fecha@ == em_fecha_spec(text@),
        r.0.total@ == em_total_spec(text@),
        r.0.cliente@ == em_cliente_spec(text@),
        r.1.deep_view() == alertas_em_spec(text@, doc@),
{
    let mut alertas: Vec<String> = Vec::new();
    let fecha = match buscar_patron(r"\d{2}/\d{2}/\d{4}", text) {
        Some(m) => recortar(m.as_str()),
        None => {
            alertas.push(alerta("Date", doc));
            centinela_exec()
        },
    };
    let total = match buscar_patron(r"TOTAL A FACTURAR\s*[\d,.]+\d{2}€", text) {
        Some(m) => {
            let sin_etiqueta = quitar_etiqueta(m.as_str(), 16);
            recortar(sin_etiqueta.as_str())
        },
        None => {
            alertas.push(alerta("Amount", doc));
            centinela_exec()
        },
    };
    let cliente = match buscar_patron(r"CLIENTE:\s*[a-zA-ZáéíóúñÑÁÉÍÓÚ., ]+", text) {
        Some(m) => {
            let sin_etiqueta = quitar_etiqueta(m.as_str(), 8);
            recortar(sin_etiqueta.as_str())
        },
        None => {
            alertas.push(alerta("Client", doc));
            centinela_exec()
        },
    };
    proof {
        assert(alertas.deep_view() =~= alertas_em_spec(text@, doc@));
    }
    (PdfInfoEm { fecha, total, cliente }, alertas)
}

/// A field extracted as the match of `pat` with the leftmost match of the
/// label pattern `pref` removed and the remainder trimmed.
pub open spec fn extraccion_con_prefijo(t: Seq<char>, pat: Seq<char>, pref: Seq<char>) -> Seq<
    char,
> {
    match busqueda_de(pat, t) {
        Some(m) => recortar_spec(reemplazo_de(pref, m)),
        None => centinela(),
    }
}

/// The concept field of a received AliExpress invoice.
pub open spec fn rec_concepto_spec(t: Seq<char>) -> Seq<char> {
    if clasificar_spec(t) == Empresa::AliExpress {
        extraccion_con_prefijo(t, r"Order Number:\s*.*\n*(.+)"@, r"Order Number:\s*.*\n*"@)
    } else {
        centinela()
    }
}

/// The date field of a received AliExpress invoice: the labeled date token
/// with the 15-character label stripped and the remainder trimmed.
pub open spec fn rec_fecha_spec(t: Seq<char>) -> Seq<char> {
    if clasificar_spec(t) == Empresa::AliExpress {
        match busqueda_de(r"Invoice Date : \d{4}-\d{2}-\d{4}"@, t) {
            Some(m) => recortar_spec(quitar_etiqueta_spec(m, 15)),
            None => centinela(),
        }
    } else {
        centinela()
    }
}

/// The vendor-name field of a received AliExpress invoice; the tax-id field
/// carries the same captured value.
pub open spec fn rec_empresa_spec(t: Seq<char>) -> Seq<char> {
    if clasificar_spec(t) == Empresa::AliExpress {
        extraccion_con_prefijo(t, r"Sold by:\n*.+"@, r"Sold by:\n*"@)
    } else {
        centinela()
    }
}

/// The tax-base field of a received AliExpress invoice.
pub open spec fn rec_base_spec(t: Seq<char>) -> Seq<char> {
    if clasificar_spec(t) == Empresa::AliExpress {
        extraccion_con_prefijo(t, r"Taxable.+\n.+\n.+"@, r"Taxable.+\n.+\n"@)
    } else {
        centinela()
    }
}

/// The tax-amount field of a received AliExpress invoice.
pub open spec fn rec_iva_spec(t: Seq<char>) -> Seq<char> {
    if clasificar_spec(t) == Empresa::AliExpress {
        extraccion_con_prefijo(t, r"Total VAT.+\n.+\n.+"@, r"Total VAT.+\n.+\n"@)
    } else {
        centinela()
    }
}

/// The grand-total field of a received AliExpress invoice.
pub open spec fn rec_total_spec(t: Seq<char>) -> Seq<char> {
    if clasificar_spec(t) == Empresa::AliExpress {
        extraccion_con_prefijo(t, r"Grant Total.*\n.+\n.+"@, r"Grant Total.*\n.+\n"@)
    } else {
        centinela()
    }
}

/// The alerts a received invoice produces. For the one implemented vendor
/// they follow extraction order (concept, date, vendor, tax id, tax base,
/// tax amount, total), the tax id sharing the vendor field's capture; an
/// unrecognized vendor produces a single alert; the remaining vendors have
/// no pattern set and produce none.
pub open spec fn alertas_rec_spec(t: Seq<char>, doc: Seq<char>) -> Seq<Seq<char>> {
    if clasificar_spec(t) == Empresa::AliExpress {
        (if patron_coincide(r"Order Number:\s*.*\n*(.+)"@, t) {
            Seq::<Seq<char>>::empty()
        } else {
            seq![alerta_spec("Concept"@, doc)]
        }) + (if patron_coincide(r"Invoice Date : \d{4}-\d{2}-\d{4}"@, t) {
            Seq::<Seq<char>>::empty()
        } else {
            seq![alerta_spec("Date"@, doc)]
        }) + (if patron_coincide(r"Sold by:\n*.+"@, t) {
            Seq::<Seq<char>>::empty()
        } else {
            seq![alerta_spec("Vendor"@, doc), alerta_spec("Tax id"@, doc)]
        }) + (if patron_coincide(r"Taxable.+\n.+\n.+"@, t) {
            Seq::<Seq<char>>::empty()
        } else {
            seq![alerta_spec("Tax base"@, doc)]
        }) + (if patron_coincide(r"Total VAT.+\n.+\n.+"@, t) {
            Seq::<Seq<char>>::empty()
        } else {
            seq![alerta_spec("Tax amount"@, doc)]
        }) + (if patron_coincide(r"Grant Total.*\n.+\n.+"@, t) {
            Seq::<Seq<char>>::empty()
        } else {
            seq![alerta_spec("Total"@, doc)]
        })
    } else if clasificar_spec(t) == Empresa::Unknown {
        seq![alerta_empresa_spec(doc)]
    } else {
        Seq::<Seq<char>>::empty()
    }
}

/// Extracts the seven fields of a received invoice from its text, after
/// classifying the vendor from the same text. The one implemented vendor's
/// pattern set fills each field or leaves the sentinel with one alert per
/// missing field; an unrecognized vendor yields an all-sentinel record and
/// one alert; every other vendor yields an all-sentinel record silently.
pub fn procesar_pdf_rec(text: &str, doc: &str) -> (r: (PdfInfoRec, Vec<String>))
    ensures
        r.0.concepto@ == rec_concepto_spec(text@),
        r.0.fecha@ == rec_fecha_spec(text@),
        r.0.nif@ == rec_empresa_spec(text@),
        r.0.empresa@ == rec_empresa_spec(text@),
        r.0.base@ == rec_base_spec(text@),
        r.0.iva@ == rec_iva_spec(text@),
        r.0.total@ == rec_total_spec(text@),
        r.1.deep_view() == alertas_rec_spec(text@, doc@),
{
    let mut alertas: Vec<String> = Vec::new();
    let info = match buscar_empresa(text) {
        Empresa::AliExpress => {
            let concepto = match buscar_patron(r"Order Number:\s*.*\n*(.+)", text) {
                Some(m) => {
                    let sin = quitar_patron(r"Order Number:\s*.*\n*", m.as_str());
                    recortar(sin.as_str())
                },
                None => {
                    alertas.push(alerta("Concept", doc));
                    centinela_exec()
                },
            };
            let fecha = match buscar_patron(r"Invoice Date : \d{4}-\d{2}-\d{4}", text) {
                Some(m) => {
                    let sin_etiqueta = quitar_etiqueta(m.as_str(), 15);
                    recortar(sin_etiqueta.as_str())
                },
                None => {
                    alertas.push(alerta("Date", doc));
                    centinela_exec()
                },
            };
            let empresa = match buscar_patron(r"Sold by:\n*.+", text) {
                Some(m) => {
                    let sin = quitar_patron(r"Sold by:\n*", m.as_str());
                    recortar(sin.as_str())
                },
                None => {
                    alertas.push(alerta("Vendor", doc));
                    alertas.push(alerta("Tax id", doc));
                    centinela_exec()
                },
            };
            let nif = empresa.clone();
            let base = match buscar_patron(r"Taxable.+\n.+\n.+", text) {
                Some(m) => {
                    let sin = quitar_patron(r"Taxable.+\n.+\n", m.as_str());
                    recortar(sin.as_str())
                },
                None => {
                    alertas.push(alerta("Tax base", doc));
                    centinela_exec()
                },
            };
            let iva = match buscar_patron(r"Total VAT.+\n.+\n.+", text) {
                Some(m) => {
                    let sin = quitar_patron(r"Total VAT.+\n.+\n", m.as_str());
                    recortar(sin.as_str())
                },
                None => {
                    alertas.push(alerta("Tax amount", doc));
                    centinela_exec()
                },
            };
            let total = match buscar_patron(r"Grant Total.*\n.+\n.+", text) {
                Some(m) => {
                    let sin = quitar_patron(r"Grant Total.*\n.+\n", m.as_str());
                    recortar(sin.as_str())
                },
                None => {
                    alertas.push(alerta("Total", doc));
                    centinela_exec()
                },
            };
            PdfInfoRec { concepto, fecha, nif, empresa, base, iva, total }
        },
        Empresa::Unknown => {
            alertas.push(alerta_empresa(doc));
            PdfInfoRec {
                concepto: centinela_exec(),
                fecha: centinela_exec(),
                nif: centinela_exec(),
                empresa: centinela_exec(),
                base: centinela_exec(),
                iva: centinela_exec(),
                total: centinela_exec(),
            }
        },
        Empresa::Amazon
        | Empresa::BricoGeek
        | Empresa::Gst3d
        | Empresa::LeroyMerlin
        | Empresa::Robotopia
        | Empresa::XrShop => PdfInfoRec {
            concepto: centinela_exec(),
            fecha: centinela_exec(),
            nif: centinela_exec(),
            empresa: centinela_exec(),
            base: centinela_exec(),
            iva: centinela_exec(),
            total: centinela_exec(),
        },
    };
    proof {
        assert(alertas.deep_view() =~= alertas_rec_spec(text@, doc@));
    }
    (info, alertas)
}

/// The predicate that picks one alert line out of the alert list.
pub open spec fn criba_alerta(x: Seq<char>) -> spec_fn(Seq<char>) -> bool {
    |s: Seq<char>| s == x
}

/// How many times the alert line `x` occurs in the alert list `ss`.
pub open spec fn cuenta(ss: Seq<Seq<char>>, x: Seq<char>) -> nat {
    ss.filter(criba_alerta(x)).len()
}

proof fn lema_cuenta_concat(a: Seq<Seq<char>>, b: Seq<Seq<char>>, x: Seq<char>)
    ensures
        cuenta(a + b, x) == cuenta(a, x) + cuenta(b, x),
{
    Seq::filter_distributes_over_add(a, b, criba_alerta(x));
}

proof fn lema_cuenta_vacia(x: Seq<char>)
    ensures
        cuenta(Seq::<Seq<char>>::empty(), x) == 0,
{
    reveal(Seq::filter);
}

proof fn lema_cuenta_una(y: Seq<char>, x: Seq<char>)
    ensures
        cuenta(seq![y], x) == (if x == y {
            1nat
        } else {
            0nat
        }),
{
    reveal(Seq::filter);
    let p = criba_alerta(x);
    assert(seq![y].drop_last() =~= Seq::<Seq<char>>::empty());
    assert(Seq::<Seq<char>>::empty().filter(p) =~= Seq::<Seq<char>>::empty());
    assert(seq![y].last() == y);
    if x == y {
        assert(p(y));
        assert(seq![y].filter(p) =~= Seq::<Seq<char>>::empty().push(y));
    } else {
        assert(!p(y));
        assert(seq![y].filter(p) =~= Seq::<Seq<char>>::empty());
    }
}

/// Two alert lines over the same document differ whenever their field names
/// differ.
proof fn lema_alertas_distintas(c1: Seq<char>, c2: Seq<char>, doc: Seq<char>)
    requires
        c1 != c2,
    ensures
        alerta_spec(c1, doc) != alerta_spec(c2, doc),
{
    reveal_strlit("ALERT: ");
    reveal_strlit(" not found in document: ");
    let a1 = alerta_spec(c1, doc);
    let a2 = alerta_spec(c2, doc);
    assert(a1.len() == 7 + c1.len() + 24 + doc.len());
    assert(a2.len() == 7 + c2.len() + 24 + doc.len());
    if c1.len() == c2.len() {
        assert(!(forall|k: int| 0 <= k < c1.len() ==> c1[k] == c2[k])) by {
            if forall|k: int| 0 <= k < c1.len() ==> c1[k] == c2[k] {
                assert(c1 =~= c2);
            }
        }
        let k = choose|k: int| 0 <= k < c1.len() && c1[k] != c2[k];
        assert(a1[7 + k] == c1[k]);
        assert(a2[7 + k] == c2[k]);
        assert(a1[7 + k] != a2[7 + k]);
    }
}

/// Law: an issued invoice whose text has no date token gets the sentinel as
/// its date, and the alert list holds exactly one date alert.
pub proof fn lema_em_fecha_ausente(t: Seq<char>, doc: Seq<char>)
    requires
        !patron_coincide(r"\d{2}/\d{2}/\d{4}"@, t),
    ensures
        em_fecha_spec(t) == centinela(),
        cuenta(alertas_em_spec(t, doc), alerta_spec("Date"@, doc)) == 1,
{
    reveal_strlit("Date");
    reveal_strlit("Amount");
    reveal_strlit("Client");
    let x = alerta_spec("Date"@, doc);
    lema_alertas_distintas("Amount"@, "Date"@, doc);
    lema_alertas_distintas("Client"@, "Date"@, doc);
    let a = seq![x];
    let b = if patron_coincide(r"TOTAL A FACTURAR\s*[\d,.]+\d{2}€"@, t) {
        Seq::<Seq<char>>::empty()
    } else {
        seq![alerta_spec("Amount"@, doc)]
    };
    let c = if patron_coincide(r"CLIENTE:\s*[a-zA-ZáéíóúñÑÁÉÍÓÚ., ]+"@, t) {
        Seq::<Seq<char>>::empty()
    } else {
        seq![alerta_spec("Client"@, doc)]
    };
    lema_cuenta_concat(a + b, c, x);
    lema_cuenta_concat(a, b, x);
    lema_cuenta_una(x, x);
    lema_cuenta_vacia(x);
    lema_cuenta_una(alerta_spec("Amount"@, doc), x);
    lema_cuenta_una(alerta_spec("Client"@, doc), x);
}

/// Law: an issued invoice whose text has no labeled total gets the sentinel
/// as its total, and the alert list holds exactly one amount alert.
pub proof fn lema_em_total_ausente(t: Seq<char>, doc: Seq<char>)
    requires
        !patron_coincide(r"TOTAL A FACTURAR\s*[\d,.]+\d{2}€"@, t),
    ensures
        em_total_spec(t) == centinela(),
        cuenta(alertas_em_spec(t, doc), alerta_spec("Amount"@, doc)) == 1,
{
    reveal_strlit("Date");
    reveal_strlit("Amount");
    reveal_strlit("Client");
    let x = alerta_spec("Amount"@, doc);
    assert("Amount"@ != "Client"@) by {
        assert("Amount"@[0] == 'A');
        assert("Client"@[0] == 'C');
    }
    lema_alertas_distintas("Date"@, "Amount"@, doc);
    lema_alertas_distintas("Client"@, "Amount"@, doc);
    let a = if patron_coincide(r"\d{2}/\d{2}/\d{4}"@, t) {
        Seq::<Seq<char>>::empty()
    } else {
        seq![alerta_spec("Date"@, doc)]
    };
    let b = seq![x];
    let c = if patron_coincide(r"CLIENTE:\s*[a-zA-ZáéíóúñÑÁÉÍÓÚ., ]+"@, t) {
        Seq::<Seq<char>>::empty()
    } else {
        seq![alerta_spec("Client"@, doc)]
    };
    lema_cuenta_concat(a + b, c, x);
    lema_cuenta_concat(a, b, x);
    lema_cuenta_una(x, x);
    lema_cuenta_vacia(x);
    lema_cuenta_una(alerta_spec("Date"@, doc), x);
    lema_cuenta_una(alerta_spec("Client"@, doc), x);
}

/// Law: an issued invoice whose text has no labeled client gets the sentinel
/// as its client, and the alert list holds exactly one client alert.
pub proof fn lema_em_cliente_ausente(t: Seq<char>, doc: Seq<char>)
    requires
        !patron_coincide(r"CLIENTE:\s*[a-zA-ZáéíóúñÑÁÉÍÓÚ., ]+"@, t),
    ensures
        em_cliente_spec(t) == centinela(),
        cuenta(alertas_em_spec(t, doc), alerta_spec("Client"@, doc)) == 1,
{
    reveal_strlit("Date");
    reveal_strlit("Amount");
    reveal_strlit("Client");
    let x = alerta_spec("Client"@, doc);
    assert("Amount"@ != "Client"@) by {
        assert("Amount"@[0] == 'A');
        assert("Client"@[0] == 'C');
    }
    lema_alertas_distintas("Date"@, "Client"@, doc);
    lema_alertas_distintas("Amount"@, "Client"@, doc);
    let a = if patron_coincide(r"\d{2}/\d{2}/\d{4}"@, t) {
        Seq::<Seq<char>>::empty()
    } else {
        seq![alerta_spec("Date"@, doc)]
    };
    let b = if patron_coincide(r"TOTAL A FACTURAR\s*[\d,.]+\d{2}€"@, t) {
        Seq::<Seq<char>>::empty()
    } else {
        seq![alerta_spec("Amount"@, doc)]
    };
    let c = seq![x];
    lema_cuenta_concat(a + b, c, x);
    lema_cuenta_concat(a, b, x);
    lema_cuenta_una(x, x);
    lema_cuenta_vacia(x);
    lema_cuenta_una(alerta_spec("Date"@, doc), x);
    lema_cuenta_una(alerta_spec("Amount"@, doc), x);
}

/// Law: a received AliExpress invoice whose text has no concept pattern gets
/// the sentinel as its concept, and the alert list holds exactly one concept
/// alert.
pub proof fn lema_rec_concepto_ausente(t: Seq<char>, doc: Seq<char>)
    requires
        clasificar_spec(t) == Empresa::AliExpress,
        !patron_coincide(r"Order Number:\s*.*\n*(.+)"@, t),
    ensures
        rec_concepto_spec(t) == centinela(),
        cuenta(alertas_rec_spec(t, doc), alerta_spec("Concept"@, doc)) == 1,
{
    reveal_strlit("Concept");
    reveal_strlit("Date");
    reveal_strlit("Vendor");
    reveal_strlit("Tax id");
    reveal_strlit("Tax base");
    reveal_strlit("Tax amount");
    reveal_strlit("Total");
    let x = alerta_spec("Concept"@, doc);
    lema_alertas_distintas("Date"@, "Concept"@, doc);
    lema_alertas_distintas("Vendor"@, "Concept"@, doc);
    lema_alertas_distintas("Tax id"@, "Concept"@, doc);
    lema_alertas_distintas("Tax base"@, "Concept"@, doc);
    lema_alertas_distintas("Tax amount"@, "Concept"@, doc);
    lema_alertas_distintas("Total"@, "Concept"@, doc);
    let a = seq![x];
    let b = if patron_coincide(r"Invoice Date : \d{4}-\d{2}-\d{4}"@, t) {
        Seq::<Seq<char>>::empty()
    } else {
        seq![alerta_spec("Date"@, doc)]
    };
    let c = if patron_coincide(r"Sold by:\n*.+"@, t) {
        Seq::<Seq<char>>::empty()
    } else {
        seq![alerta_spec("Vendor"@, doc), alerta_spec("Tax id"@, doc)]
    };
    let d = if patron_coincide(r"Taxable.+\n.+\n.+"@, t) {
        Seq::<Seq<char>>::empty()
    } else {
        seq![alerta_spec("Tax base"@, doc)]
    };
    let e = if patron_coincide(r"Total VAT.+\n.+\n.+"@, t) {
        Seq::<Seq<char>>::empty()
    } else {
        seq![alerta_spec("Tax amount"@, doc)]
    };
    let f = if patron_coincide(r"Grant Total.*\n.+\n.+"@, t) {
        Seq::<Seq<char>>::empty()
    } else {
        seq![alerta_spec("Total"@, doc)]
    };
    lema_cuenta_concat(a + b + c + d + e, f, x);
    lema_cuenta_concat(a + b + c + d, e, x);
    lema_cuenta_concat(a + b + c, d, x);
    lema_cuenta_concat(a + b, c, x);
    lema_cuenta_concat(a, b, x);
    lema_cuenta_una(x, x);
    lema_cuenta_vacia(x);
    lema_cuenta_una(alerta_spec("Date"@, doc), x);
    lema_cuenta_concat(
        seq![alerta_spec("Vendor"@, doc)],
        seq![alerta_spec("Tax id"@, doc)],
        x,
    );
    assert(seq![alerta_spec("Vendor"@, doc)] + seq![alerta_spec("Tax id"@, doc)]
        =~= seq![alerta_spec("Vendor"@, doc), alerta_spec("Tax id"@, doc)]);
    lema_cuenta_una(alerta_spec("Vendor"@, doc), x);
    lema_cuenta_una(alerta_spec("Tax id"@, doc), x);
    lema_cuenta_una(alerta_spec("Tax base"@, doc), x);
    lema_cuenta_una(alerta_spec("Tax amount"@, doc), x);
    lema_cuenta_una(alerta_spec("Total"@, doc), x);
}

} // verus!
