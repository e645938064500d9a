//! Welcome email for new users.
use vstd::prelude::*;
use crate::address::{Address, same_address};
use crate::builder::MessageBuilder;
use crate::error::MailError;
use crate::message::Message;
use crate::address::opt_view;
use crate::text::{copy_str, push_str};

verus! {

/// Welcome email for new users.
pub struct WelcomeEmail {
    /// Recipient address
    pub to: Address,
    /// User's name
    pub user_name: String,
    /// Application name
    pub app_name: String,
}

/// The HTML body of a welcome email.
pub open spec fn welcome_html(user_name: Seq<char>, app_name: Seq<char>) -> Seq<char> {
    r#"
<!DOCTYPE html>
<html>
<head>
    <style>
        body { font-family: Arial, sans-serif; line-height: 1.6; color: #333; }
        .container { max-width: 600px; margin: 0 auto; padding: 20px; }
        h1 { color: #4a5568; }
        .footer { margin-top: 30px; padding-top: 20px; border-top: 1px solid #e2e8f0; font-size: 12px; color: #718096; }
    </style>
</head>
<body>
    <div class="container">
        <h1>Welcome, "#@
        + user_name
        + r#"!</h1>
        <p>Thank you for joining "#@
        + app_name
        + r#". We're excited to have you on board!</p>
        <p>If you have any questions, feel free to reach out to our support team.</p>
        <div class="footer">
            <p>This email was sent by "#@
        + app_name
        + r#". If you did not sign up, please ignore this email.</p>
        </div>
    </div>
</body>
</html>
            "#@
}

/// The plain-text body of a welcome email.
pub open spec fn welcome_text(user_name: Seq<char>, app_name: Seq<char>) -> Seq<char> {
    r#"Welcome, "#@
        + user_name
        + r#"!

Thank you for joining "#@
        + app_name
        + r#". We're excited to have you on board!

If you have any questions, feel free to reach out to our support team.

---
This email was sent by "#@
        + app_name
        + r#". If you did not sign up, please ignore this email.
            "#@
}

/// The subject of a welcome email.
pub open spec fn welcome_subject(app_name: Seq<char>) -> Seq<char> {
    "Welcome to "@ + app_name + "!"@
}

impl WelcomeEmail {
    fn html(&self) -> (s: String)
        ensures
            s@ == welcome_html(self.user_name@, self.app_name@),
    {
        let mut s = copy_str(r#"
<!DOCTYPE html>
<html>
<head>
    <style>
        body { font-family: Arial, sans-serif; line-height: 1.6; color: #333; }
        .container { max-width: 600px; margin: 0 auto; padding: 20px; }
        h1 { color: #4a5568; }
        .footer { margin-top: 30px; padding-top: 20px; border-top: 1px solid #e2e8f0; font-size: 12px; color: #718096; }
    </style>
</head>
<body>
    <div class="container">
        <h1>Welcome, "#);
        push_str(&mut s, self.user_name.as_str());
        push_str(&mut s, r#"!</h1>
        <p>Thank you for joining "#);
        push_str(&mut s, self.app_name.as_str());
        push_str(&mut s, r#". We're excited to have you on board!</p>
        <p>If you have any questions, feel free to reach out to our support team.</p>
        <div class="footer">
            <p>This email was sent by "#);
        push_str(&mut s, self.app_name.as_str());
        push_str(&mut s, r#". If you did not sign up, please ignore this email.</p>
        </div>
    </div>
</body>
</html>
            "#);
        s
    }

    fn text(&self) -> (s: String)
        ensures
            s@ == welcome_text(self.user_name@, self.app_name@),
    {
        let mut s = copy_str(r#"Welcome, "#);
        push_str(&mut s, self.user_name.as_str());
        push_str(&mut s, r#"!

Thank you for joining "#);
        push_str(&mut s, self.app_name.as_str());
        push_str(&mut s, r#". We're excited to have you on board!

If you have any questions, feel free to reach out to our support team.

---
This email was sent by "#);
        push_str(&mut s, self.app_name.as_str());
        push_str(&mut s, r#". If you did not sign up, please ignore this email.
            "#);
        s
    }

    /// Build the welcome message: from `noreply@example.com` under the
    /// application's name, to the user, with an HTML and a text body.
    pub fn build(&self) -> (r: Result<Message, MailError>)
        ensures
            r is Ok,
            match r {
                Ok(m) => {
                    &&& m.from.email@ == "noreply@example.com"@
                    &&& opt_view(m.from.name) == Some(self.app_name@)
                    &&& m.to@.len() == 1
                    &&& same_address(m.to@[0], self.to)
                    &&& m.subject@ == welcome_subject(self.app_name@)
                    &&& opt_view(m.html) == Some(welcome_html(self.user_name@, self.app_name@))
                    &&& opt_view(m.text) == Some(welcome_text(self.user_name@, self.app_name@))
                    &&& m.cc@.len() == 0 && m.bcc@.len() == 0 && m.reply_to is None
                    &&& m.attachments@.len() == 0 && m.headers@.len() == 0
                },
                Err(_) => false,
            },
    {
        let mut subject = copy_str("Welcome to ");
        push_str(&mut subject, self.app_name.as_str());
        push_str(&mut subject, "!");
        let html = self.html();
        let text = self.text();
        proof {
            reveal_strlit("noreply@example.com");
            reveal_strlit("Welcome to ");
        }
        MessageBuilder::new().from(Address::with_name("noreply@example.com", self.app_name.as_str())).to(
            self.to.duplicate(),
        ).subject(subject.as_str()).html(html.as_str()).text(text.as_str()).build()
    }
}

} // verus!
