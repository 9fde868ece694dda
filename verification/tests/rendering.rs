const TEXT: &str = "&lt;p&gt;&lt;strong&gt;t;&gt; - &lt;/p&gt;";

use html2text::from_read;

#[test]
fn html2text() {
    let res = from_read(TEXT.as_bytes(), 10000).unwrap();
    let res = from_read(res.as_bytes(), 10000).unwrap();

    println!("{}", res)
}
