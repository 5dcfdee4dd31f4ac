//! Tests of the event-level XML serialization: exact event lists for the
//! resource parameter shapes, and a render through an XML writer that
//! mirrors the wire format.

use xero::encoding::{XmlEvent, XmlWriter};
use xero::resources::contacts::{
    Address, AddressType, ContactIdParams, ContactParams, ContactStatus, Phone, PhoneType,
};
use xero::error::{RequestError, StatusError, ValidationError};
use xero::resources::invoices::{InvoiceStatus, InvoiceType, LineAmountType};
use xero::resources::payments::{PaymentAccount, PaymentInvoice, PaymentStatus, PaymentType};

fn start(name: &str) -> XmlEvent {
    XmlEvent::Start(name.to_string())
}

fn text(t: &str) -> XmlEvent {
    XmlEvent::Text(t.to_string())
}

fn render(events: &[XmlEvent]) -> String {
    let mut body: Vec<u8> = Vec::new();
    {
        let mut writer = xml::writer::EmitterConfig::new()
            .perform_indent(true)
            .write_document_declaration(false)
            .create_writer(&mut body);
        for event in events {
            match event {
                XmlEvent::Start(name) => {
                    writer.write(xml::writer::XmlEvent::start_element(name.as_str())).unwrap()
                },
                XmlEvent::Text(t) => writer.write(t.as_str()).unwrap(),
                XmlEvent::End => writer.write(xml::writer::XmlEvent::end_element()).unwrap(),
            }
        }
    }
    String::from_utf8(body).unwrap()
}

#[test]
fn enum_wire_names() {
    let cases: Vec<(Box<dyn Fn(&mut XmlWriter)>, &str)> = vec![
        (Box::new(|w: &mut XmlWriter| ContactStatus::Active.write(w)), "ACTIVE"),
        (Box::new(|w: &mut XmlWriter| ContactStatus::Archived.write(w)), "ARCHIVED"),
        (Box::new(|w: &mut XmlWriter| AddressType::POBox.write(w)), "POBOX"),
        (Box::new(|w: &mut XmlWriter| PhoneType::DirectDial.write(w)), "DDI"),
        (Box::new(|w: &mut XmlWriter| InvoiceType::AccountsPayable.write(w)), "ACCPAY"),
        (Box::new(|w: &mut XmlWriter| InvoiceType::AccountsReceivable.write(w)), "ACCREC"),
        (Box::new(|w: &mut XmlWriter| InvoiceStatus::Authorised.write(w)), "AUTHORISED"),
        (Box::new(|w: &mut XmlWriter| LineAmountType::NoTax.write(w)), "NoTax"),
        (Box::new(|w: &mut XmlWriter| PaymentStatus::Deleted.write(w)), "DELETED"),
        (Box::new(|w: &mut XmlWriter| PaymentType::ARPrepayment.write(w)), "ARPREPAYMENTPAYMENT"),
    ];
    for (write, expected) in cases {
        let mut w = XmlWriter::new();
        write(&mut w);
        assert_eq!(w.events, vec![text(expected)]);
    }
}

#[test]
fn default_invoice_type_is_receivable() {
    assert!(matches!(InvoiceType::default(), InvoiceType::AccountsReceivable));
}

#[test]
fn contact_id_params_events() {
    let params = ContactIdParams { contact_id: "eaa28f49-6028-4b6e-bb12-d8f6278073fc".to_string() };
    let mut w = XmlWriter::new();
    params.write(&mut w);
    assert_eq!(
        w.events,
        vec![start("ContactID"), text("eaa28f49-6028-4b6e-bb12-d8f6278073fc"), XmlEvent::End]
    );
    assert_eq!(
        render(&w.events),
        "<ContactID>eaa28f49-6028-4b6e-bb12-d8f6278073fc</ContactID>"
    );
}

#[test]
fn address_skips_empty_fields() {
    let address = Address {
        address_type: AddressType::Street,
        address_line1: "1 High St".to_string(),
        address_line2: String::new(),
        address_line3: String::new(),
        address_line4: String::new(),
        city: "Wellington".to_string(),
        region: String::new(),
        postal_code: "6011".to_string(),
        country: String::new(),
        attention_to: String::new(),
    };
    let mut w = XmlWriter::new();
    address.write(&mut w);
    assert_eq!(
        w.events,
        vec![
            start("AddressType"),
            text("STREET"),
            XmlEvent::End,
            start("AddressLine1"),
            text("1 High St"),
            XmlEvent::End,
            start("City"),
            text("Wellington"),
            XmlEvent::End,
            start("PostalCode"),
            text("6011"),
            XmlEvent::End,
        ]
    );
}

#[test]
fn contact_params_events_and_render() {
    let params = ContactParams {
        name: Some("ACME Ltd".to_string()),
        email_address: Some("billing@acme.example".to_string()),
        contact_status: Some(ContactStatus::Active),
        is_customer: Some(true),
        phones: Some(vec![Phone {
            phone_type: PhoneType::Default,
            phone_number: "5551234".to_string(),
            phone_area_code: "04".to_string(),
            phone_country_code: "64".to_string(),
        }]),
        ..Default::default()
    };
    let mut w = XmlWriter::new();
    params.write(&mut w);
    assert_eq!(
        w.events,
        vec![
            start("ContactStatus"),
            text("ACTIVE"),
            XmlEvent::End,
            start("Name"),
            text("ACME Ltd"),
            XmlEvent::End,
            start("EmailAddress"),
            text("billing@acme.example"),
            XmlEvent::End,
            start("Phones"),
            start("Phone"),
            start("PhoneType"),
            text("DEFAULT"),
            XmlEvent::End,
            start("PhoneNumber"),
            text("5551234"),
            XmlEvent::End,
            start("PhoneAreaCode"),
            text("04"),
            XmlEvent::End,
            start("PhoneCountryCode"),
            text("64"),
            XmlEvent::End,
            XmlEvent::End,
            XmlEvent::End,
            start("IsCustomer"),
            text("true"),
            XmlEvent::End,
        ]
    );

    let rendered = render(&w.events);
    assert_eq!(
        rendered,
        "<ContactStatus>ACTIVE</ContactStatus>\n\
         <Name>ACME Ltd</Name>\n\
         <EmailAddress>billing@acme.example</EmailAddress>\n\
         <Phones>\n  <Phone>\n    <PhoneType>DEFAULT</PhoneType>\n    \
         <PhoneNumber>5551234</PhoneNumber>\n    <PhoneAreaCode>04</PhoneAreaCode>\n    \
         <PhoneCountryCode>64</PhoneCountryCode>\n  </Phone>\n</Phones>\n\
         <IsCustomer>true</IsCustomer>"
    );
}

#[test]
fn payment_reference_events() {
    let mut w = XmlWriter::new();
    PaymentInvoice::InvoiceNumber("0010".to_string()).write(&mut w);
    PaymentAccount::Code("090".to_string()).write(&mut w);
    assert_eq!(
        w.events,
        vec![
            start("InvoiceNumber"),
            text("0010"),
            XmlEvent::End,
            start("Code"),
            text("090"),
            XmlEvent::End,
        ]
    );
}

#[test]
fn request_error_descriptions() {
    let status = RequestError::Status(StatusError {
        id: "x".to_string(),
        status: "404".to_string(),
        provider_name: String::new(),
    });
    assert_eq!(status.description(), "error reported by the service");
    let validation = RequestError::Validation(ValidationError {
        error_number: 10,
        error_type: "ValidationException".to_string(),
        message: String::new(),
        elements: Vec::new(),
    });
    assert_eq!(validation.description(), "validation error reported by the service");
    assert_eq!(RequestError::UnknownError.description(), "unrecognized error reported by the service");
}
