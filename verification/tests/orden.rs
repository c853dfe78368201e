use facturas::claves::{clave_fecha, clave_importe};
use facturas::extraer::PdfInfoEm;
use facturas::ordenar::ordenar;

fn registro(fecha: &str, total: &str, cliente: &str) -> PdfInfoEm {
    PdfInfoEm {
        fecha: fecha.to_string(),
        total: total.to_string(),
        cliente: cliente.to_string(),
    }
}

#[test]
fn clave_de_fecha_bien_formada() {
    assert_eq!(clave_fecha("01/02/2023"), Some(20230201));
    assert_eq!(clave_fecha("31/12/2019"), Some(20191231));
    assert_eq!(clave_fecha("1/2/2023"), Some(20230201));
}

#[test]
fn clave_de_fecha_malformada_no_existe() {
    assert_eq!(clave_fecha("Not found"), None);
    assert_eq!(clave_fecha(""), None);
    assert_eq!(clave_fecha("01-02-2023"), None);
    assert_eq!(clave_fecha("01/02"), None);
    assert_eq!(clave_fecha("aa/bb/cccc"), None);
}

#[test]
fn clave_de_importe_en_centimos() {
    assert_eq!(clave_importe("1.234,00\u{20ac}"), Some(123400));
    assert_eq!(clave_importe("10.00"), Some(100000));
    assert_eq!(clave_importe("12,34\u{20ac}"), Some(1234));
    assert_eq!(clave_importe("0,5"), Some(50));
    assert_eq!(clave_importe("7"), Some(700));
}

#[test]
fn clave_de_importe_malformado_no_existe() {
    assert_eq!(clave_importe("Not found"), None);
    assert_eq!(clave_importe(""), None);
    assert_eq!(clave_importe("1,234"), None);
    assert_eq!(clave_importe("12,34,56"), None);
}

#[test]
fn ordena_por_fecha_en_orden_de_calendario() {
    let mut v = vec![
        registro("01/01/2020", "1,00", "a"),
        registro("31/12/2019", "2,00", "b"),
        registro("15/06/2020", "3,00", "c"),
    ];
    assert!(ordenar(&mut v, "Date"));
    let fechas: Vec<&str> = v.iter().map(|r| r.fecha.as_str()).collect();
    assert_eq!(fechas, vec!["31/12/2019", "01/01/2020", "15/06/2020"]);
}

#[test]
fn fecha_malformada_se_ordena_al_final() {
    let mut v = vec![
        registro("Not found", "1,00", "a"),
        registro("01/01/2020", "2,00", "b"),
    ];
    assert!(ordenar(&mut v, "Date"));
    assert_eq!(v[0].fecha, "01/01/2020");
    assert_eq!(v[1].fecha, "Not found");
}

#[test]
fn ordena_por_importe_con_centinela_al_final() {
    let mut v = vec![
        registro("01/01/2020", "1.234,00\u{20ac}", "a"),
        registro("02/01/2020", "10.00", "b"),
        registro("03/01/2020", "Not found", "c"),
    ];
    assert!(ordenar(&mut v, "Amount"));
    let totales: Vec<&str> = v.iter().map(|r| r.total.as_str()).collect();
    assert_eq!(totales, vec!["10.00", "1.234,00\u{20ac}", "Not found"]);
}

#[test]
fn ordenar_por_importe_es_determinista() {
    let hacer = || {
        let mut v = vec![
            registro("x", "5,00", "a"),
            registro("y", "Not found", "b"),
            registro("z", "1,00", "c"),
            registro("w", "Not found", "d"),
        ];
        ordenar(&mut v, "Amount");
        v.iter().map(|r| r.fecha.clone()).collect::<Vec<String>>()
    };
    let primera = hacer();
    let segunda = hacer();
    assert_eq!(primera, segunda);
    assert_eq!(primera[0], "z");
    assert_eq!(primera[1], "x");
}

#[test]
fn ordena_por_cliente_lexicografico() {
    let mut v = vec![
        registro("a", "1,00", "Zara"),
        registro("b", "2,00", "Ana"),
        registro("c", "3,00", "\u{d1}u"),
    ];
    assert!(ordenar(&mut v, "Client"));
    let clientes: Vec<&str> = v.iter().map(|r| r.cliente.as_str()).collect();
    assert_eq!(clientes, vec!["Ana", "Zara", "\u{d1}u"]);
}

#[test]
fn claves_iguales_se_ordenan_igual_en_cada_corrida() {
    let hacer = || {
        let mut v = vec![
            registro("01/01/2020", "2,00", "b"),
            registro("1/1/2020", "1,00", "a"),
            registro("01/01/2020", "3,00", "c"),
        ];
        ordenar(&mut v, "Date");
        v.iter().map(|r| r.cliente.clone()).collect::<Vec<String>>()
    };
    assert_eq!(hacer(), hacer());
}

#[test]
fn columna_desconocida_no_ordena() {
    let mut v = vec![
        registro("02/01/2020", "2,00", "b"),
        registro("01/01/2020", "1,00", "a"),
    ];
    assert!(!ordenar(&mut v, "Fecha"));
    assert_eq!(v[0].fecha, "02/01/2020");
    assert_eq!(v[1].fecha, "01/01/2020");
}
