use jsonh_rs::{
    JsonhError, JsonhNumber, JsonhNumberParser, JsonhNumberPart, JsonhReader, JsonhReaderOptions,
    JsonhValue, JsonhVersion,
};
use serde_json::Value;

fn part_to_f64(part: &JsonhNumberPart, base: u32) -> Result<f64, JsonhError> {
    match part {
        JsonhNumberPart::Decimal(text) => match text.parse::<f64>() {
            Ok(number) => Ok(number),
            Err(_) => Err(JsonhError::NumberParsing),
        },
        JsonhNumberPart::Digits { negative, whole, fraction } => {
            let mut integer: f64 = 0.0;
            for digit in whole {
                integer = (integer * (base as f64)) + (*digit as f64);
            }
            if *negative {
                integer *= -1.0;
            }
            let mut fraction_value: f64 = 0.0;
            for digit in fraction.iter().rev() {
                fraction_value = (fraction_value + (*digit as f64)) / (base as f64);
            }
            Ok(integer + fraction_value)
        }
    }
}

fn number_to_f64(literal: &str) -> Result<f64, JsonhError> {
    let number: JsonhNumber = JsonhNumberParser::parse(literal.to_string())?;
    let mut value: f64 = part_to_f64(&number.mantissa, number.base)?;
    if let Some(exponent) = &number.exponent {
        value = value * (10 as f64).powf(part_to_f64(exponent, number.base)?);
    }
    if number.negative {
        value *= -1.0;
    }
    Ok(value)
}

fn to_json(value: &JsonhValue) -> Result<Value, JsonhError> {
    match value {
        JsonhValue::Null => Ok(Value::Null),
        JsonhValue::Bool(flag) => Ok(Value::Bool(*flag)),
        JsonhValue::String(text) => Ok(Value::String(text.clone())),
        JsonhValue::Number(literal) => {
            match serde_json::Number::from_f64(number_to_f64(literal)?) {
                Some(number) => Ok(Value::Number(number)),
                None => Err(JsonhError::FailedNumberConversion),
            }
        }
        JsonhValue::Array(items) => {
            let mut array: Vec<Value> = Vec::new();
            for item in items {
                array.push(to_json(item)?);
            }
            Ok(Value::Array(array))
        }
        JsonhValue::Object(properties) => {
            let mut object = serde_json::Map::new();
            for property in properties {
                object.insert(property.name.clone(), to_json(&property.value)?);
            }
            Ok(Value::Object(object))
        }
    }
}

fn parse_element_from_str(jsonh: &str, options: JsonhReaderOptions) -> Result<Value, JsonhError> {
    to_json(&JsonhReader::parse_element_from_str(jsonh, options)?)
}

#[test]
pub fn escape_sequence_test() {
    let jsonh: &str = r#"
        "\U0001F47D and \uD83D\uDC7D"
        "#;
    let element: Value = parse_element_from_str(jsonh, JsonhReaderOptions::new()).unwrap();

    assert_eq!(element, "👽 and 👽");
}

#[test]
pub fn quoteless_escape_sequence_test() {
    let jsonh: &str = r#"
        \U0001F47D and \uD83D\uDC7D
        "#;
    let element: Value = parse_element_from_str(jsonh, JsonhReaderOptions::new()).unwrap();

    assert_eq!(element, "👽 and 👽");
}

#[test]
pub fn multi_quoted_string_test() {
    let jsonh: &str = r#"
            """"
                  Hello! Here's a quote: ". Now a double quote: "". And a triple quote! """. Escape: \\\U0001F47D.
                 """"
        "#;
    let element: Value = parse_element_from_str(jsonh, JsonhReaderOptions::new()).unwrap();

    assert_eq!(element, " Hello! Here's a quote: \". Now a double quote: \"\". And a triple quote! \"\"\". Escape: \\👽.");
}

#[test]
pub fn array_test() {
    let jsonh: &str = r#"
        [
            1, 2,
            3
            4 5,6
        ]
        "#;
    let element: Value = parse_element_from_str(jsonh, JsonhReaderOptions::new()).unwrap();

    assert_eq!(element.as_array().unwrap().len(), 5);
    assert_eq!(element.as_array().unwrap()[0].as_f64().unwrap(), 1.0);
    assert_eq!(element.as_array().unwrap()[1].as_f64().unwrap(), 2.0);
    assert_eq!(element.as_array().unwrap()[2].as_f64().unwrap(), 3.0);
    assert_eq!(element.as_array().unwrap()[3].as_str().unwrap(), "4 5");
    assert_eq!(element.as_array().unwrap()[4].as_f64().unwrap(), 6.0);
}

#[test]
pub fn number_parser_test() {
    assert_eq!(number_to_f64("1.2e3.4").unwrap().trunc(), 3014 as f64);
}

#[test]
pub fn braceless_object_test() {
    let jsonh: &str = r#"
        a: b
        c: d
        "#;
    let element: Value = parse_element_from_str(jsonh, JsonhReaderOptions::new()).unwrap();

    assert_eq!(element.as_object().unwrap().len(), 2);
    assert_eq!(element.as_object().unwrap()["a"].as_str().unwrap(), "b");
    assert_eq!(element.as_object().unwrap()["c"].as_str().unwrap(), "d");
}

#[test]
pub fn comment_test() {
    let jsonh: &str = r#"
        [
            1 # hash comment
            2 // line comment
            3 /* block comment */,4
        ]
        "#;
    let element: Value = parse_element_from_str(jsonh, JsonhReaderOptions::new()).unwrap();

    assert_eq!(element.as_array().unwrap(), &[Value::from(1.0), Value::from(2.0), Value::from(3.0), Value::from(4.0)]);
}

#[test]
pub fn verbatim_string_test() {
    let jsonh: &str = r#"
        {
            a\\: b\\
            @c\\: @d\\
            @e\\: f\\
        }
        "#;
    let element: Value = parse_element_from_str(jsonh, JsonhReaderOptions::new()).unwrap();

    assert_eq!(element.as_object().unwrap().len(), 3);
    assert_eq!(element.as_object().unwrap()["a\\"].as_str().unwrap(), "b\\");
    assert_eq!(element.as_object().unwrap()["c\\\\"].as_str().unwrap(), "d\\\\");
    assert_eq!(element.as_object().unwrap()["e\\\\"].as_str().unwrap(), "f\\");

    let element2: Value = parse_element_from_str(jsonh, JsonhReaderOptions::new()
        .with_version(JsonhVersion::V1)
    ).unwrap();
    assert_eq!(element2.as_object().unwrap().len(), 3);
    assert_eq!(element2.as_object().unwrap()["a\\"].as_str().unwrap(), "b\\");
    assert_eq!(element2.as_object().unwrap()["@c\\"].as_str().unwrap(), "@d\\");
    assert_eq!(element2.as_object().unwrap()["@e\\"].as_str().unwrap(), "f\\");

    let jsonh2: &str = r#"
        @"a\\": @'''b\\'''
        "#;
    let element3: Value = parse_element_from_str(jsonh2, JsonhReaderOptions::new()).unwrap();

    assert_eq!(element3.as_object().unwrap().len(), 1);
    assert_eq!(element3.as_object().unwrap()["a\\\\"].as_str().unwrap(), "b\\\\");
}

#[test]
pub fn parse_single_element_test() {
    let jsonh: &str = r#"
        1
        2
        "#;
    let element: f64 = parse_element_from_str(jsonh, JsonhReaderOptions::new()).unwrap().as_f64().unwrap();

    assert_eq!(element, 1.0);

    assert_eq!(parse_element_from_str(jsonh, JsonhReaderOptions::new()
        .with_parse_single_element(true)
    ).is_err(), true);

    let jsonh2: &str = r#"
        1


        "#;

    assert_eq!(parse_element_from_str(jsonh2, JsonhReaderOptions::new()
        .with_parse_single_element(true)
    ).is_err(), false);
}

#[test]
pub fn big_numbers_test() {
    // serde_json::Value does not support 1e99999 (infinity)

    let jsonh: &str = r#"
        [
            3.5,
            1e99999,
            999999999999999999999999999999999999999999999999999999999999999999999999999999999999999999999999999999999999999999999999999999999999999999999999999999999999999999999999999999999999999999999999999999999999999999999999999999999999999999999999999999999999999999999999999999999999999999999999999999999999999999999
        ]
        "#;

    // Rust's serde_json::Value does not support infinity
    assert_eq!(parse_element_from_str(jsonh, JsonhReaderOptions::new()).is_err(), true);
}

#[test]
pub fn max_depth_test() {
    let jsonh: &str = r#"
        {
            a: {
            b: {
                c: ""
            }
            d: {
            }
            }
        }
        "#;

    assert_eq!(parse_element_from_str(jsonh, JsonhReaderOptions::new()
        .with_max_depth(2)
    ).is_err(), true);

    assert_eq!(parse_element_from_str(jsonh, JsonhReaderOptions::new()
        .with_max_depth(3)
    ).is_err(), false);
}