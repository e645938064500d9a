//! Order shipped notification email.
use vstd::prelude::*;
use crate::address::{Address, opt_view};
use crate::mail_builder::MailBuilder;
use crate::mailable::Mailable;
use crate::text::{copy_str, push_str};

verus! {

/// Order shipped notification.
#[derive(Debug)]
pub struct OrderShippedMail {
    /// Recipient email
    pub to: String,
    /// Customer name
    pub customer_name: String,
    /// Order ID
    pub order_id: String,
    /// Tracking URL
    pub tracking_url: String,
}

/// The markdown body of an order shipped notification.
pub open spec fn shipped_markdown(customer_name: Seq<char>, order_id: Seq<char>, tracking_url: Seq<char>) -> Seq<char> {
    r#"# Order Shipped

Hello "#@
        + customer_name
        + r#",

Your order #"#@
        + order_id
        + r#" has been shipped!

@button("#@
        + tracking_url
        + r#")
Track Your Shipment
@endbutton

@panel
**Estimated Delivery:** 3-5 business days

If you have any questions, please don't hesitate to contact us.
@endpanel

Thank you for your order!

---

Best regards,
The Team
"#@
}

/// The subject of an order shipped notification.
pub open spec fn shipped_subject(order_id: Seq<char>) -> Seq<char> {
    "Your Order #"@ + order_id + " Has Shipped!"@
}

impl OrderShippedMail {
    fn markdown(&self) -> (s: String)
        ensures
            s@ == shipped_markdown(self.customer_name@, self.order_id@, self.tracking_url@),
    {
        let mut s = copy_str(r#"# Order Shipped

Hello "#);
        push_str(&mut s, self.customer_name.as_str());
        push_str(&mut s, r#",

Your order #"#);
        push_str(&mut s, self.order_id.as_str());
        push_str(&mut s, r#" has been shipped!

@button("#);
        push_str(&mut s, self.tracking_url.as_str());
        push_str(&mut s, r#")
Track Your Shipment
@endbutton

@panel
**Estimated Delivery:** 3-5 business days

If you have any questions, please don't hesitate to contact us.
@endpanel

Thank you for your order!

---

Best regards,
The Team
"#);
        s
    }
}

impl Mailable for OrderShippedMail {
    /// A builder from `noreply@example.com` ("Online Shop") to the customer,
    /// with the order's subject and markdown body.
    fn build(&self) -> (b: MailBuilder)
        ensures
            b@.from matches Some(f) && f.email@ == "noreply@example.com"@ && opt_view(f.name) == Some(
                "Online Shop"@,
            ),
            b@.to.len() == 1,
            b@.to[0].email@ == self.to@,
            b@.to[0].name is None,
            b@.subject == shipped_subject(self.order_id@),
            b@.markdown == Some(shipped_markdown(self.customer_name@, self.order_id@, self.tracking_url@)),
            b@.cc.len() == 0 && b@.bcc.len() == 0 && b@.reply_to is None,
            b@.html is None && b@.text is None && b@.attachments.len() == 0,
    {
        let markdown = self.markdown();
        let mut subject = copy_str("Your Order #");
        push_str(&mut subject, self.order_id.as_str());
        push_str(&mut subject, " Has Shipped!");
        MailBuilder::new().from(Address::with_name("noreply@example.com", "Online Shop")).to(
            Address::new(self.to.as_str()),
        ).subject(subject.as_str()).markdown(markdown.as_str())
    }
}

} // verus!
