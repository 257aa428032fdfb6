use rate_filter::record::{Average, OutputRecord};
use rate_filter::sink::{data_row, header_row, row_from, Sink, SinkError};

fn output(name: &str, billing_code: &str, text: &str) -> OutputRecord {
    OutputRecord {
        name: name.to_string(),
        billing_code: billing_code.to_string(),
        avg_rate: Average { bits: 0, text: text.to_string() },
    }
}

fn row(name: &str, billing_code: &str, text: &str) -> String {
    String::from_utf8(data_row(&output(name, billing_code, text)).unwrap()).unwrap()
}

#[test]
fn header_is_the_column_names() {
    assert_eq!(header_row(), Ok(b"name,billing_code,avg_rate\n".to_vec()));
}

#[test]
fn plain_row() {
    assert_eq!(row("A", "100", "15"), "A,100,15\n");
    assert_eq!(row("Office visit", "99213", "12.5"), "Office visit,99213,12.5\n");
}

#[test]
fn row_with_empty_fields() {
    assert_eq!(row("", "", ""), ",,\n");
    assert_eq!(row("", "7", ""), ",7,\n");
}

#[test]
fn field_with_a_comma_is_quoted() {
    assert_eq!(row("Smith, John", "100", "15"), "\"Smith, John\",100,15\n");
    assert_eq!(row("A", "1,2", "15"), "A,\"1,2\",15\n");
    assert_eq!(row("A", "100", "1,5"), "A,100,\"1,5\"\n");
}

#[test]
fn quotes_inside_a_field_are_doubled() {
    assert_eq!(row("say \"hi\"", "100", "15"), "\"say \"\"hi\"\"\",100,15\n");
    assert_eq!(row("\"", "100", "15"), "\"\"\"\",100,15\n");
    assert_eq!(row("a\"b,c", "\"\"", "15"), "\"a\"\"b,c\",\"\"\"\"\"\",15\n");
}

#[test]
fn line_breaks_inside_a_field_are_quoted() {
    assert_eq!(row("two\nlines", "100", "15"), "\"two\nlines\",100,15\n");
    assert_eq!(row("carriage\rreturn", "100", "15"), "\"carriage\rreturn\",100,15\n");
}

#[test]
fn other_bytes_are_not_quoted() {
    assert_eq!(row(" padded ", "a;b", "#1"), " padded ,a;b,#1\n");
    assert_eq!(row("tab\there", "back\\slash", "'q'"), "tab\there,back\\slash,'q'\n");
    assert_eq!(row("Zoë", "日本", "15"), "Zoë,日本,15\n");
}

#[test]
fn long_fields_come_out_whole() {
    let long = "x".repeat(20000);
    let quoted = format!("{},\"{}\"", "y".repeat(9000), "z".repeat(9000));
    assert_eq!(row(&long, "1", "2"), format!("{},1,2\n", long));
    let expected = format!("\"{},\"\"{}\"\"\",1,2\n", "y".repeat(9000), "z".repeat(9000));
    assert_eq!(row(&quoted, "1", "2"), expected);
}

/// The quoting rule, written out: a field goes into double quotes, with the
/// quotes inside it doubled, when it holds a comma, a quote or a line break.
fn expected_field(field: &str) -> String {
    if field.contains(|c| c == ',' || c == '"' || c == '\r' || c == '\n') {
        format!("\"{}\"", field.replace('"', "\"\""))
    } else {
        field.to_string()
    }
}

#[test]
fn rows_follow_the_quoting_rule() {
    let alphabet = [
        'a', 'b', ' ', ',', '"', '\n', '\r', '\t', ';', '#', '\\', '\'', 'é', '日', '0', '.',
    ];
    let mut state: u64 = 0x2545_F491_4F6C_DD1D;
    let mut next = move || {
        state ^= state << 13;
        state ^= state >> 7;
        state ^= state << 17;
        state
    };
    for _ in 0..3000 {
        let mut fields = Vec::new();
        for _ in 0..3 {
            let length = (next() % 12) as usize;
            let mut field = String::new();
            for _ in 0..length {
                field.push(alphabet[(next() % alphabet.len() as u64) as usize]);
            }
            fields.push(field);
        }
        let expected = format!(
            "{},{},{}\n",
            expected_field(&fields[0]),
            expected_field(&fields[1]),
            expected_field(&fields[2])
        );
        assert_eq!(row(&fields[0], &fields[1], &fields[2]), expected);
    }
}

#[test]
fn encoder_error_becomes_a_sink_error() {
    let failed = csv::Error::from(std::io::Error::new(std::io::ErrorKind::Other, "full"));
    assert_eq!(row_from(Err(failed)), Err(SinkError::Encoding));
    assert_eq!(row_from(Ok(vec![1, 2, 3])), Ok(vec![1, 2, 3]));
}

#[test]
fn sink_writes_the_header_before_the_first_row() {
    let mut sink = Sink::new();
    assert_eq!(sink.pending_len(), 0);
    assert_eq!(sink.drain(), Vec::<u8>::new());
    sink.emit(&output("A", "100", "15")).unwrap();
    assert_eq!(sink.drain(), b"name,billing_code,avg_rate\nA,100,15\n".to_vec());
    sink.emit(&output("B", "200", "7.25")).unwrap();
    sink.emit(&output("C, D", "300", "30")).unwrap();
    assert_eq!(sink.pending_len(), 25);
    assert_eq!(sink.drain(), b"B,200,7.25\n\"C, D\",300,30\n".to_vec());
    assert_eq!(sink.finish(), Ok(Vec::new()));
}

#[test]
fn sink_without_rows_gives_the_header_alone() {
    let mut sink = Sink::new();
    assert_eq!(sink.finish(), Ok(b"name,billing_code,avg_rate\n".to_vec()));
    assert_eq!(sink.finish(), Ok(Vec::new()));
    assert_eq!(sink.drain(), Vec::<u8>::new());
}

#[test]
fn sink_pieces_add_up_to_the_output() {
    let records = [
        output("A", "100", "15"),
        output("B \"b\"", "200", "0.5"),
        output("C", "3,00", "-1"),
        output("D", "400", "30"),
    ];
    let mut whole = Sink::new();
    for record in &records {
        whole.emit(record).unwrap();
    }
    let at_once = whole.finish().unwrap();
    let mut pieces = Sink::new();
    let mut collected = Vec::new();
    for record in &records {
        pieces.emit(record).unwrap();
        collected.extend(pieces.drain());
    }
    collected.extend(pieces.finish().unwrap());
    assert_eq!(collected, at_once);
    assert_eq!(
        String::from_utf8(at_once).unwrap(),
        "name,billing_code,avg_rate\nA,100,15\n\"B \"\"b\"\"\",200,0.5\nC,\"3,00\",-1\nD,400,30\n"
    );
}
