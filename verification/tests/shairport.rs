use base64::Engine;
use uiplay::metadata::{read_metadata_item, MetadataItem};

#[test]
fn parses_text_metadata() {
    let input = "<item><type>636f7265</type><code>6d696e6d</code><length>4</length>\n<data encoding=\"base64\">\nU29uZw==</data></item>\n";
    let item = read_metadata_item(input).unwrap().unwrap();
    assert_eq!(
        item,
        MetadataItem { kind: "core".into(), code: "minm".into(), data: b"Song".to_vec() }
    );
}

#[test]
fn parses_wrapped_metadata() {
    let input = "<item><type>636f7265</type><code>6d696e6d</code><length>12</length>\n<data encoding=\"base64\">\nSGVsbG8s\nIHdvcmxk\n</data></item>\n";
    let item = read_metadata_item(input).unwrap().unwrap();
    assert_eq!(
        item,
        MetadataItem { kind: "core".into(), code: "minm".into(), data: b"Hello, world".to_vec() }
    );
}

#[test]
fn parses_empty_metadata() {
    let input = "<item><type>73736e63</type><code>70626567</code><length>0</length></item>\n";
    let item = read_metadata_item(input).unwrap().unwrap();
    assert_eq!(item, MetadataItem { kind: "ssnc".into(), code: "pbeg".into(), data: Vec::new() });
}

#[test]
fn written_items_read_back() {
    let cases: [(&[u8; 4], &[u8; 4], &[u8]); 4] = [
        (b"core", b"minm", b"Song"),
        (b"core", b"asar", b"An artist with a long name"),
        (b"ssnc", b"PICT", &[0u8, 255, 1, 254, 2, 253, 3]),
        (b"ssnc", b"prgr", b"1/2/3"),
    ];
    for (kind, code, data) in cases {
        let encoded = base64::engine::general_purpose::STANDARD.encode(data);
        for width in [1usize, 3, 4, 76] {
            let lines: Vec<String> = encoded
                .as_bytes()
                .chunks(width)
                .map(|c| String::from_utf8(c.to_vec()).unwrap())
                .collect();
            let input = format!(
                "<item><type>{:08x}</type><code>{:08x}</code><length>{}</length>\n<data encoding=\"base64\">\n{}</data></item>\n",
                u32::from_be_bytes(*kind),
                u32::from_be_bytes(*code),
                data.len(),
                lines.join("\n"),
            );
            let item = read_metadata_item(&input).unwrap().unwrap();
            assert_eq!(
                item,
                MetadataItem {
                    kind: String::from_utf8(kind.to_vec()).unwrap(),
                    code: String::from_utf8(code.to_vec()).unwrap(),
                    data: data.to_vec(),
                }
            );
        }
    }
}
