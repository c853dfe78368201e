use facturas::clasificar::{buscar_empresa, Empresa};
use facturas::extraer::{procesar_pdf_em, procesar_pdf_rec};

#[test]
fn clasifica_cada_firma() {
    assert!(matches!(buscar_empresa("pedido via Alibaba.com hoy"), Empresa::AliExpress));
    assert!(matches!(buscar_empresa("factura de amazon.es"), Empresa::Amazon));
    assert!(matches!(buscar_empresa("E-Pulse  Servicios SL"), Empresa::BricoGeek));
    assert!(matches!(buscar_empresa("GST 3D SL factura"), Empresa::Gst3d));
    assert!(matches!(buscar_empresa("compra en leroymerlin.es"), Empresa::LeroyMerlin));
    assert!(matches!(buscar_empresa("Distintiva Solutions"), Empresa::Robotopia));
    assert!(matches!(buscar_empresa("tienda xrshop.store"), Empresa::XrShop));
}

#[test]
fn clasifica_sin_firma_como_desconocida() {
    assert!(matches!(buscar_empresa(""), Empresa::Unknown));
    assert!(matches!(buscar_empresa("una factura cualquiera"), Empresa::Unknown));
}

#[test]
fn clasifica_la_primera_firma_de_la_lista() {
    // Both signatures are present: the earlier-listed vendor wins.
    let texto = "xrshop.store junto a amazon.es";
    assert!(matches!(buscar_empresa(texto), Empresa::Amazon));
    let texto2 = "amazon.es junto a Alibaba.com";
    assert!(matches!(buscar_empresa(texto2), Empresa::AliExpress));
}

#[test]
fn extrae_los_tres_campos_emitidos() {
    let texto = "CLIENTE: Juan Perez\n01/02/2023\nTOTAL A FACTURAR 1.234,00\u{20ac}\n";
    let (info, alertas) = procesar_pdf_em(texto, "doc1.pdf");
    assert_eq!(info.fecha, "01/02/2023");
    assert_eq!(info.total, "1.234,00\u{20ac}");
    assert_eq!(info.cliente, "Juan Perez");
    assert_eq!(alertas.len(), 0);
}

#[test]
fn emitida_sin_fecha_da_centinela_y_una_alerta() {
    let texto = "CLIENTE: Ana\nTOTAL A FACTURAR 10,00\u{20ac}\n";
    let (info, alertas) = procesar_pdf_em(texto, "carta.pdf");
    assert_eq!(info.fecha, "Not found");
    assert_eq!(info.total, "10,00\u{20ac}");
    assert_eq!(info.cliente, "Ana");
    assert_eq!(alertas.len(), 1);
    assert_eq!(alertas[0], "ALERT: Date not found in document: carta.pdf");
}

#[test]
fn emitida_sin_nada_da_tres_alertas_en_orden() {
    let (info, alertas) = procesar_pdf_em("vacio", "v.pdf");
    assert_eq!(info.fecha, "Not found");
    assert_eq!(info.total, "Not found");
    assert_eq!(info.cliente, "Not found");
    assert_eq!(alertas.len(), 3);
    assert_eq!(alertas[0], "ALERT: Date not found in document: v.pdf");
    assert_eq!(alertas[1], "ALERT: Amount not found in document: v.pdf");
    assert_eq!(alertas[2], "ALERT: Client not found in document: v.pdf");
}

#[test]
fn recibida_aliexpress_extrae_los_siete_campos() {
    let texto = "Alibaba.com\n\
                 Order Number: 12345\n\
                 Widget deluxe\n\
                 Invoice Date : 2023-05-0001\n\
                 Sold by:\n\
                 Shenzhen Widgets Ltd\n\
                 Taxable amount\n\
                 segunda linea\n\
                 10.00\n\
                 Total VAT aqui\n\
                 segunda linea\n\
                 2.10\n\
                 Grant Total\n\
                 segunda linea\n\
                 12.10\n";
    let (info, alertas) = procesar_pdf_rec(texto, "rec.pdf");
    assert_eq!(info.concepto, "Widget deluxe");
    assert_eq!(info.fecha, "2023-05-0001");
    assert_eq!(info.empresa, "Shenzhen Widgets Ltd");
    assert_eq!(info.nif, "Shenzhen Widgets Ltd");
    assert_eq!(info.base, "10.00");
    assert_eq!(info.iva, "2.10");
    assert_eq!(info.total, "12.10");
    assert_eq!(alertas.len(), 0);
}

#[test]
fn recibida_aliexpress_sin_fecha_avisa() {
    let texto = "Alibaba.com\n\
                 Order Number: 9\n\
                 Cosa\n\
                 Sold by:\n\
                 Vendedor\n\
                 Taxable x\ny\n1.00\n\
                 Total VAT x\ny\n0.21\n\
                 Grant Total\ny\n1.21\n";
    let (info, alertas) = procesar_pdf_rec(texto, "r2.pdf");
    assert_eq!(info.fecha, "Not found");
    assert_eq!(alertas.len(), 1);
    assert_eq!(alertas[0], "ALERT: Date not found in document: r2.pdf");
}

#[test]
fn recibida_sin_empresa_reconocida_avisa_una_vez() {
    let (info, alertas) = procesar_pdf_rec("texto sin firma", "x.pdf");
    assert_eq!(info.concepto, "Not found");
    assert_eq!(info.fecha, "Not found");
    assert_eq!(info.nif, "Not found");
    assert_eq!(info.empresa, "Not found");
    assert_eq!(info.base, "Not found");
    assert_eq!(info.iva, "Not found");
    assert_eq!(info.total, "Not found");
    assert_eq!(alertas.len(), 1);
    assert_eq!(alertas[0], "ALERT: Vendor not recognized in document: x.pdf");
}

#[test]
fn recibida_de_otra_empresa_da_centinelas_sin_alertas() {
    let (info, alertas) = procesar_pdf_rec("pedido de amazon.es", "a.pdf");
    assert_eq!(info.concepto, "Not found");
    assert_eq!(info.total, "Not found");
    assert_eq!(alertas.len(), 0);
}
