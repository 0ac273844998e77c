// Record-level round trip: decode a JSON array, rewrite each record through
// the library, re-encode, and check that only the three modeled keys survive.

use compdb_rewriter::BuildCommand;

use serde_json::Value;

#[test]
fn record_round_trip_drops_extra_keys() {
    let input = "[{\"command\":\"gcc -c a.c\",\"directory\":\"/d\",\"file\":\"a.c\",\"extra\":1}]";
    let v: Value = serde_json::from_str(input).unwrap();
    let arr = v.as_array().unwrap();
    let mut out: Vec<Value> = Vec::new();
    for item in arr {
        let obj = item.as_object().unwrap();
        let mut r = BuildCommand::new(
            obj.get("command").unwrap().as_str().unwrap().to_string(),
            obj.get("directory").unwrap().as_str().unwrap().to_string(),
            obj.get("file").unwrap().as_str().unwrap().to_string(),
        );
        r.rewrite("aarch64-linux-gnu");
        let mut m = serde_json::Map::new();
        m.insert("command".to_string(), Value::String(r.command));
        m.insert("directory".to_string(), Value::String(r.directory));
        m.insert("file".to_string(), Value::String(r.file));
        out.push(Value::Object(m));
    }
    let text = serde_json::to_string_pretty(&Value::Array(out)).unwrap();

    let reparsed: Value = serde_json::from_str(&text).unwrap();
    let arr = reparsed.as_array().unwrap();
    assert_eq!(arr.len(), 1);
    let obj = arr[0].as_object().unwrap();
    assert_eq!(obj.len(), 3);
    assert_eq!(
        obj.get("command").unwrap().as_str().unwrap(),
        "clang --target=aarch64-linux-gnu -c a.c"
    );
    assert_eq!(obj.get("directory").unwrap().as_str().unwrap(), "/d");
    assert_eq!(obj.get("file").unwrap().as_str().unwrap(), "a.c");
    assert!(obj.get("extra").is_none());
}

#[test]
fn malformed_second_record_fails_decode() {
    // The driver decodes a whole file before rewriting anything; a malformed
    // `command` in the second record must surface as a decode error, so no
    // output is produced for the file.
    let input = "[{\"command\":\"gcc -c a.c\",\"directory\":\"/d\",\"file\":\"a.c\"},\
                  {\"command\":42,\"directory\":\"/d\",\"file\":\"b.c\"}]";
    let v: Value = serde_json::from_str(input).unwrap();
    let arr = v.as_array().unwrap();
    let mut decoded: Vec<BuildCommand> = Vec::new();
    let mut failed = false;
    for item in arr {
        let obj = match item.as_object() {
            Some(o) => o,
            None => {
                failed = true;
                break;
            },
        };
        match (
            obj.get("command").and_then(Value::as_str),
            obj.get("directory").and_then(Value::as_str),
            obj.get("file").and_then(Value::as_str),
        ) {
            (Some(c), Some(d), Some(f)) => {
                decoded.push(BuildCommand::new(c.to_string(), d.to_string(), f.to_string()));
            },
            _ => {
                failed = true;
                break;
            },
        }
    }
    assert!(failed);
    assert_eq!(decoded.len(), 1);
}
