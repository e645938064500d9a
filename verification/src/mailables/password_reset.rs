//! Password reset email.
use vstd::prelude::*;
use crate::address::{Address, opt_view, same_address};
use crate::builder::MessageBuilder;
use crate::error::MailError;
use crate::message::Message;
use crate::text::{copy_str, decimal, push_decimal, push_str};

verus! {

/// Password reset email.
pub struct PasswordResetEmail {
    /// Recipient address
    pub to: Address,
    /// Password reset token
    pub reset_token: String,
    /// Reset URL (base URL)
    pub reset_url: String,
    /// Expiration time in minutes
    pub expires_minutes: u32,
}

/// The link the user follows: the base URL with the token as query.
pub open spec fn reset_link(reset_url: Seq<char>, token: Seq<char>) -> Seq<char> {
    reset_url + "?token="@ + token
}

/// The HTML body of a password reset email.
pub open spec fn reset_html(url: Seq<char>, minutes: nat) -> Seq<char> {
    r#"
<!DOCTYPE html>
<html>
<head>
    <style>
        body { font-family: Arial, sans-serif; line-height: 1.6; color: #333; }
        .container { max-width: 600px; margin: 0 auto; padding: 20px; }
        h1 { color: #4a5568; }
        .button {
            display: inline-block;
            padding: 12px 24px;
            margin: 20px 0;
            background-color: #4299e1;
            color: #ffffff;
            text-decoration: none;
            border-radius: 4px;
        }
        .warning {
            margin-top: 20px;
            padding: 15px;
            background-color: #fff5f5;
            border-left: 4px solid #fc8181;
            color: #742a2a;
        }
        .footer { margin-top: 30px; padding-top: 20px; border-top: 1px solid #e2e8f0; font-size: 12px; color: #718096; }
    </style>
</head>
<body>
    <div class="container">
        <h1>Password Reset Request</h1>
        <p>You requested to reset your password. Click the button below to create a new password:</p>
        <a href=""#@
        + url
        + r#"" class="button">Reset Password</a>
        <p>Or copy and paste this link into your browser:</p>
        <p>"#@
        + url
        + r#"</p>
        <div class="warning">
            <strong>⚠️ Security Notice</strong><br>
            This link expires in "#@
        + decimal(minutes)
        + r#" minutes. If you didn't request this reset, please ignore this email.
        </div>
        <div class="footer">
            <p>If you have any questions, please contact our support team.</p>
        </div>
    </div>
</body>
</html>
            "#@
}

/// The plain-text body of a password reset email.
pub open spec fn reset_text(url: Seq<char>, minutes: nat) -> Seq<char> {
    r#"Password Reset Request

You requested to reset your password. Visit the link below to create a new password:

"#@
        + url
        + r#"

⚠️ SECURITY NOTICE
This link expires in "#@
        + decimal(minutes)
        + r#" minutes. If you didn't request this reset, please ignore this email.

---
If you have any questions, please contact our support team.
            "#@
}

impl PasswordResetEmail {
    fn link(&self) -> (s: String)
        ensures
            s@ == reset_link(self.reset_url@, self.reset_token@),
    {
        let mut s = copy_str(self.reset_url.as_str());
        push_str(&mut s, "?token=");
        push_str(&mut s, self.reset_token.as_str());
        s
    }

    fn html(&self, url: &String) -> (s: String)
        ensures
            s@ == reset_html(url@, self.expires_minutes as nat),
    {
        let mut s = copy_str(r#"
<!DOCTYPE html>
<html>
<head>
    <style>
        body { font-family: Arial, sans-serif; line-height: 1.6; color: #333; }
        .container { max-width: 600px; margin: 0 auto; padding: 20px; }
        h1 { color: #4a5568; }
        .button {
            display: inline-block;
            padding: 12px 24px;
            margin: 20px 0;
            background-color: #4299e1;
            color: #ffffff;
            text-decoration: none;
            border-radius: 4px;
        }
        .warning {
            margin-top: 20px;
            padding: 15px;
            background-color: #fff5f5;
            border-left: 4px solid #fc8181;
            color: #742a2a;
        }
        .footer { margin-top: 30px; padding-top: 20px; border-top: 1px solid #e2e8f0; font-size: 12px; color: #718096; }
    </style>
</head>
<body>
    <div class="container">
        <h1>Password Reset Request</h1>
        <p>You requested to reset your password. Click the button below to create a new password:</p>
        <a href=""#);
        push_str(&mut s, url.as_str());
        push_str(&mut s, r#"" class="button">Reset Password</a>
        <p>Or copy and paste this link into your browser:</p>
        <p>"#);
        push_str(&mut s, url.as_str());
        push_str(&mut s, r#"</p>
        <div class="warning">
            <strong>⚠️ Security Notice</strong><br>
            This link expires in "#);
        push_decimal(&mut s, self.expires_minutes as u64);
        push_str(&mut s, r#" minutes. If you didn't request this reset, please ignore this email.
        </div>
        <div class="footer">
            <p>If you have any questions, please contact our support team.</p>
        </div>
    </div>
</body>
</html>
            "#);
        s
    }

    fn text(&self, url: &String) -> (s: String)
        ensures
            s@ == reset_text(url@, self.expires_minutes as nat),
    {
        let mut s = copy_str(r#"Password Reset Request

You requested to reset your password. Visit the link below to create a new password:

"#);
        push_str(&mut s, url.as_str());
        push_str(&mut s, r#"

⚠️ SECURITY NOTICE
This link expires in "#);
        push_decimal(&mut s, self.expires_minutes as u64);
        push_str(&mut s, r#" minutes. If you didn't request this reset, please ignore this email.

---
If you have any questions, please contact our support team.
            "#);
        s
    }

    /// Build the reset message: from `noreply@example.com` to the user,
    /// subject `Reset Your Password`, with an HTML and a text body that both
    /// carry the reset link and the expiry.
    pub fn build(&self) -> (r: Result<Message, MailError>)
        ensures
            r is Ok,
            match r {
                Ok(m) => {
                    let url = reset_link(self.reset_url@, self.reset_token@);
                    &&& m.from.email@ == "noreply@example.com"@
                    &&& m.from.name is None
                    &&& m.to@.len() == 1
                    &&& same_address(m.to@[0], self.to)
                    &&& m.subject@ == "Reset Your Password"@
                    &&& opt_view(m.html) == Some(reset_html(url, self.expires_minutes as nat))
                    &&& opt_view(m.text) == Some(reset_text(url, self.expires_minutes as nat))
                    &&& m.cc@.len() == 0 && m.bcc@.len() == 0 && m.reply_to is None
                    &&& m.attachments@.len() == 0 && m.headers@.len() == 0
                },
                Err(_) => false,
            },
    {
        let url = self.link();
        let html = self.html(&url);
        let text = self.text(&url);
        proof {
            reveal_strlit("noreply@example.com");
            reveal_strlit("Reset Your Password");
        }
        MessageBuilder::new().from(Address::new("noreply@example.com")).to(self.to.duplicate()).subject(
            "Reset Your Password",
        ).html(html.as_str()).text(text.as_str()).build()
    }
}

} // verus!
