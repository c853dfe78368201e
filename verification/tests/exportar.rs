use facturas::extraer::{procesar_pdf_em, PdfInfoEm};
use facturas::tabla::{crear_tabla, formatear_como_tabla};

fn registro(fecha: &str, total: &str, cliente: &str) -> PdfInfoEm {
    PdfInfoEm {
        fecha: fecha.to_string(),
        total: total.to_string(),
        cliente: cliente.to_string(),
    }
}

#[test]
fn tabla_con_tabuladores_y_encabezado() {
    let mut v = vec![
        registro("02/01/2020", "2,00", "Bea"),
        registro("01/01/2020", "1,00", "Ana"),
    ];
    let tabla = formatear_como_tabla(&mut v, "Date");
    assert_eq!(
        tabla,
        "Date\tAmount\tClient\n01/01/2020\t1,00\tAna\n02/01/2020\t2,00\tBea\n"
    );
}

#[test]
fn tabla_con_columna_desconocida_conserva_el_orden() {
    let mut v = vec![
        registro("02/01/2020", "2,00", "Bea"),
        registro("01/01/2020", "1,00", "Ana"),
    ];
    let tabla = formatear_como_tabla(&mut v, "precio");
    assert_eq!(
        tabla,
        "Date\tAmount\tClient\n02/01/2020\t2,00\tBea\n01/01/2020\t1,00\tAna\n"
    );
}

#[test]
fn csv_sencillo_ordenado_por_fecha() {
    let mut v = vec![
        registro("02/01/2020", "2,00", "Bea"),
        registro("01/01/2020", "1,00", "Ana"),
    ];
    let csv = crear_tabla(&mut v, "Date");
    assert_eq!(
        csv,
        "Date,Amount,Client\n01/01/2020,\"1,00\",Ana\n02/01/2020,\"2,00\",Bea\n"
    );
}

#[test]
fn csv_escapa_comillas_comas_y_saltos() {
    let mut v = vec![registro("01/01/2020", "1,00", "Dijo \"hola\", y\nse fue")];
    let csv = crear_tabla(&mut v, "Date");
    assert_eq!(
        csv,
        "Date,Amount,Client\n01/01/2020,\"1,00\",\"Dijo \"\"hola\"\", y\nse fue\"\n"
    );
}

#[test]
fn csv_releido_reproduce_valores_y_orden() {
    let mut v = vec![
        registro("02/01/2020", "2,00", "Dijo \"hola\", y\nse fue"),
        registro("01/01/2020", "Not found", "Ana, la primera"),
        registro("03/01/2020", "3,00", "Cela"),
    ];
    let csv = crear_tabla(&mut v, "Date");
    let mut lector = csv::ReaderBuilder::new()
        .has_headers(false)
        .from_reader(csv.as_bytes());
    let mut filas: Vec<Vec<String>> = Vec::new();
    for resultado in lector.records() {
        let registro = resultado.expect("fila legible");
        filas.push(registro.iter().map(|c| c.to_string()).collect());
    }
    assert_eq!(filas.len(), 4);
    assert_eq!(filas[0], vec!["Date", "Amount", "Client"]);
    for (i, r) in v.iter().enumerate() {
        assert_eq!(filas[i + 1][0], r.fecha);
        assert_eq!(filas[i + 1][1], r.total);
        assert_eq!(filas[i + 1][2], r.cliente);
    }
}

#[test]
fn escena_completa_de_tres_facturas_emitidas() {
    let textos = [
        "CLIENTE: Carmen Diaz\n05/03/2023\nTOTAL A FACTURAR 100,00\u{20ac}\n",
        "CLIENTE: Benito Soto\nTOTAL A FACTURAR 50,00\u{20ac}\n",
        "01/01/2023\nTOTAL A FACTURAR 25,00\u{20ac}\n",
    ];
    let nombres = ["uno.pdf", "dos.pdf", "tres.pdf"];
    let mut coleccion: Vec<PdfInfoEm> = Vec::new();
    let mut alertas: Vec<String> = Vec::new();
    for (texto, nombre) in textos.iter().zip(nombres.iter()) {
        let (info, mut avisos) = procesar_pdf_em(texto, nombre);
        coleccion.push(info);
        alertas.append(&mut avisos);
    }
    assert_eq!(alertas.len(), 2);
    assert_eq!(alertas[0], "ALERT: Date not found in document: dos.pdf");
    assert_eq!(alertas[1], "ALERT: Client not found in document: tres.pdf");

    let csv = crear_tabla(&mut coleccion, "Date");
    let mut lector = csv::ReaderBuilder::new()
        .has_headers(true)
        .from_reader(csv.as_bytes());
    let filas: Vec<Vec<String>> = lector
        .records()
        .map(|r| r.expect("fila legible").iter().map(|c| c.to_string()).collect())
        .collect();
    assert_eq!(filas.len(), 3);
    // Sorted by date: the record without a date comes last.
    assert_eq!(filas[0], vec!["01/01/2023", "25,00\u{20ac}", "Not found"]);
    assert_eq!(filas[1], vec!["05/03/2023", "100,00\u{20ac}", "Carmen Diaz"]);
    assert_eq!(filas[2], vec!["Not found", "50,00\u{20ac}", "Benito Soto"]);
}

#[test]
fn coleccion_vacia_solo_tiene_encabezados() {
    let mut v: Vec<PdfInfoEm> = Vec::new();
    assert_eq!(crear_tabla(&mut v, "Date"), "Date,Amount,Client\n");
    assert_eq!(formatear_como_tabla(&mut v, "Date"), "Date\tAmount\tClient\n");
}

#[test]
fn recorta_espacios_en_los_extremos() {
    assert_eq!(facturas::texto::recortar("  hola mundo \n"), "hola mundo");
    assert_eq!(facturas::texto::recortar(""), "");
    assert_eq!(facturas::texto::recortar(" \t "), "");
}
