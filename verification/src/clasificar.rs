//! Vendor classification: an ordered list of signature patterns is tried
//! against the document text, and the first vendor whose signature matches
//! wins; when none matches the document is attributed to `Unknown`.

use vstd::prelude::*;
use crate::patrones::{busqueda_de, patron_coincide, buscar_patron};

verus! {

/// The closed set of vendors a received invoice can come from.
#[derive(Clone, Copy, Debug, PartialEq, Eq, Structural)]
pub enum Empresa {
    AliExpress,
    Amazon,
    BricoGeek,
    Gst3d,
    LeroyMerlin,
    Robotopia,
    XrShop,
    Unknown,
}

/// The signature pattern of each vendor; `Unknown` has none and is given an
/// empty pattern that takes no part in classification.
pub open spec fn firma(e: Empresa) -> Seq<char> {
    match e {
        Empresa::AliExpress => r"Alibaba\.com"@,
        Empresa::Amazon => r"amazon\.es"@,
        Empresa::BricoGeek => r"E-Pulse\s*Servicios"@,
        Empresa::Gst3d => r"GST\s*3D\s*SL"@,
        Empresa::LeroyMerlin => r"leroymerlin\.es"@,
        Empresa::Robotopia => r"Distintiva\s*Solutions"@,
        Empresa::XrShop => r"xrshop\.store"@,
        Empresa::Unknown => ""@,
    }
}

/// The position of each vendor in the fixed classification order.
pub open spec fn prioridad(e: Empresa) -> int {
    match e {
        Empresa::AliExpress => 0,
        Empresa::Amazon => 1,
        Empresa::BricoGeek => 2,
        Empresa::Gst3d => 3,
        Empresa::LeroyMerlin => 4,
        Empresa::Robotopia => 5,
        Empresa::XrShop => 6,
        Empresa::Unknown => 7,
    }
}

/// The vendor a text is classified as: the first vendor, in the fixed order,
/// whose signature matches, and `Unknown` when none does.
pub open spec fn clasificar_spec(t: Seq<char>) -> Empresa {
    if patron_coincide(firma(Empresa::AliExpress), t) {
        Empresa::AliExpress
    } else if patron_coincide(firma(Empresa::Amazon), t) {
        Empresa::Amazon
    } else if patron_coincide(firma(Empresa::BricoGeek), t) {
        Empresa::BricoGeek
    } else if patron_coincide(firma(Empresa::Gst3d), t) {
        Empresa::Gst3d
    } else if patron_coincide(firma(Empresa::LeroyMerlin), t) {
        Empresa::LeroyMerlin
    } else if patron_coincide(firma(Empresa::Robotopia), t) {
        Empresa::Robotopia
    } else if patron_coincide(firma(Empresa::XrShop), t) {
        Empresa::XrShop
    } else {
        Empresa::Unknown
    }
}

/// Classifies a document's text as one of the known vendors, trying the
/// signatures in the fixed order and keeping the first that matches.
pub fn buscar_empresa(text: &str) -> (e: Empresa)
    ensures
        e == clasificar_spec(text@),
{
    if buscar_patron(r"Alibaba\.com", text).is_some() {
        Empresa::AliExpress
    } else if buscar_patron(r"amazon\.es", text).is_some() {
        Empresa::Amazon
    } else if buscar_patron(r"E-Pulse\s*Servicios", text).is_some() {
        Empresa::BricoGeek
    } else if buscar_patron(r"GST\s*3D\s*SL", text).is_some() {
        Empresa::Gst3d
    } else if buscar_patron(r"leroymerlin\.es", text).is_some() {
        Empresa::LeroyMerlin
    } else if buscar_patron(r"Distintiva\s*Solutions", text).is_some() {
        Empresa::Robotopia
    } else if buscar_patron(r"xrshop\.store", text).is_some() {
        Empresa::XrShop
    } else {
        Empresa::Unknown
    }
}

/// Law: classification is decided by the fixed signature order. If a vendor's
/// signature matches the text and no vendor listed before it matches, the
/// text is classified as exactly that vendor.
pub proof fn lema_primera_firma_gana(t: Seq<char>, v: Empresa)
    requires
        v != Empresa::Unknown,
        patron_coincide(firma(v), t),
        forall|w: Empresa| #[trigger] prioridad(w) < prioridad(v) ==> !patron_coincide(firma(w), t),
    ensures
        clasificar_spec(t) == v,
{
    assert(prioridad(Empresa::AliExpress) == 0);
    assert(prioridad(Empresa::Amazon) == 1);
    assert(prioridad(Empresa::BricoGeek) == 2);
    assert(prioridad(Empresa::Gst3d) == 3);
    assert(prioridad(Empresa::LeroyMerlin) == 4);
    assert(prioridad(Empresa::Robotopia) == 5);
    assert(prioridad(Empresa::XrShop) == 6);
}

/// Law: classification is total, with `Unknown` as its default. A text that
/// no vendor signature matches is classified as `Unknown`.
pub proof fn lema_sin_firma(t: Seq<char>)
    requires
        forall|w: Empresa| w != Empresa::Unknown ==> !patron_coincide(#[trigger] firma(w), t),
    ensures
        clasificar_spec(t) == Empresa::Unknown,
{
    assert(!patron_coincide(firma(Empresa::AliExpress), t));
    assert(!patron_coincide(firma(Empresa::Amazon), t));
    assert(!patron_coincide(firma(Empresa::BricoGeek), t));
    assert(!patron_coincide(firma(Empresa::Gst3d), t));
    assert(!patron_coincide(firma(Empresa::LeroyMerlin), t));
    assert(!patron_coincide(firma(Empresa::Robotopia), t));
    assert(!patron_coincide(firma(Empresa::XrShop), t));
}

} // verus!
