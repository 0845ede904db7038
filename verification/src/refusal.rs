//! How requests are refused.

use crate::throttle;
use vstd::prelude::*;

verus! {

/// Why a request is refused.
#[derive(Debug, Clone, Copy, PartialEq, Eq, Structural)]
pub enum Refusal {
    /// Too many login attempts within so many seconds.
    TooManyAttempts { window_secs: u64 },
    EmptyCredentials,
    UsernameTooLong,
    PasswordTooShort,
    UserExists,
    BadCredentials,
    InvalidToken,
    AuthenticationRequired,
    EmptyContact,
    OwnContact,
    UserNotFound,
    EmptyServerName,
    EmptyRoleName,
    EmptyChannelName,
    ChannelNameTaken,
    EmptyMemberName,
    OwnerIsMember,
    UnknownRole,
    OwnerRoleNotGiven,
    OwnerRoleFixed,
    OwnerStays,
    DataUrlMissing,
    InviteCodeMissing,
    InviteExpired,
    InviteUsedUp,
    ServerLinkMissing,
    ReactionTooLong,
    AvatarMissing,
    AvatarNotImage,
    AvatarTooLarge,
    UploadFieldsMissing,
    ServerIdsMissing,
    ServerNotFound,
    ChannelNotFound,
    BadSignature,
    BadRequest,
    Forbidden,
    NotFound,
    Internal,
}

impl Refusal {
    /// The HTTP status of the answer.
    pub open spec fn code(self) -> u16 {
        match self {
            Refusal::TooManyAttempts { .. } => 429,
            Refusal::EmptyCredentials => 400,
            Refusal::UsernameTooLong => 400,
            Refusal::PasswordTooShort => 400,
            Refusal::UserExists => 409,
            Refusal::BadCredentials => 401,
            Refusal::InvalidToken => 401,
            Refusal::AuthenticationRequired => 401,
            Refusal::EmptyContact => 400,
            Refusal::OwnContact => 400,
            Refusal::UserNotFound => 404,
            Refusal::EmptyServerName => 400,
            Refusal::EmptyRoleName => 400,
            Refusal::EmptyChannelName => 400,
            Refusal::ChannelNameTaken => 400,
            Refusal::EmptyMemberName => 400,
            Refusal::OwnerIsMember => 400,
            Refusal::UnknownRole => 400,
            Refusal::OwnerRoleNotGiven => 400,
            Refusal::OwnerRoleFixed => 400,
            Refusal::OwnerStays => 400,
            Refusal::DataUrlMissing => 400,
            Refusal::InviteCodeMissing => 400,
            Refusal::InviteExpired => 410,
            Refusal::InviteUsedUp => 410,
            Refusal::ServerLinkMissing => 400,
            Refusal::ReactionTooLong => 400,
            Refusal::AvatarMissing => 400,
            Refusal::AvatarNotImage => 400,
            Refusal::AvatarTooLarge => 413,
            Refusal::UploadFieldsMissing => 400,
            Refusal::ServerIdsMissing => 400,
            Refusal::ServerNotFound => 404,
            Refusal::ChannelNotFound => 404,
            Refusal::BadSignature => 400,
            Refusal::BadRequest => 400,
            Refusal::Forbidden => 403,
            Refusal::NotFound => 404,
            Refusal::Internal => 500,
        }
    }

    /// The text of the answer; an empty one is not sent.
    pub open spec fn text(self) -> Seq<char> {
        match self {
            Refusal::TooManyAttempts { window_secs } => throttle::too_many_text(
                window_secs as nat,
            ),
            Refusal::EmptyCredentials => "Логин и пароль не могут быть пустыми"@,
            Refusal::UsernameTooLong => "Логин слишком длинный (максимум 64 символа)"@,
            Refusal::PasswordTooShort => "Пароль должен быть не менее 6 символов"@,
            Refusal::UserExists => "Пользователь уже существует"@,
            Refusal::BadCredentials => "Неверный логин или пароль"@,
            Refusal::InvalidToken => "Invalid or expired token"@,
            Refusal::AuthenticationRequired => "Authentication required"@,
            Refusal::EmptyContact => "Имя контакта не может быть пустым"@,
            Refusal::OwnContact => "Нельзя добавить самого себя"@,
            Refusal::UserNotFound => "Пользователь не найден"@,
            Refusal::EmptyServerName => "Имя сервера не может быть пустым"@,
            Refusal::EmptyRoleName => "Имя роли не может быть пустым"@,
            Refusal::EmptyChannelName => "Имя канала не может быть пустым"@,
            Refusal::ChannelNameTaken => "Канал с таким названием уже существует"@,
            Refusal::EmptyMemberName => "Имя участника не может быть пустым"@,
            Refusal::OwnerIsMember => "Владелец уже является участником сервера"@,
            Refusal::UnknownRole => "Неизвестная роль"@,
            Refusal::OwnerRoleNotGiven => "Нельзя назначить роль владельца"@,
            Refusal::OwnerRoleFixed => "Роль владельца изменить нельзя"@,
            Refusal::OwnerStays => "Владельца нельзя удалить"@,
            Refusal::DataUrlMissing => "data_url обязателен"@,
            Refusal::InviteCodeMissing => "Код приглашения обязателен"@,
            Refusal::InviteExpired => "Срок действия инвайта истёк"@,
            Refusal::InviteUsedUp => "Инвайт уже использован"@,
            Refusal::ServerLinkMissing => "Ссылка сервера обязательна"@,
            Refusal::ReactionTooLong => "Слишком длинная реакция"@,
            Refusal::AvatarMissing => "Файл аватара обязателен"@,
            Refusal::AvatarNotImage => "Аватар должен быть изображением"@,
            Refusal::AvatarTooLarge => "Аватар слишком большой (макс. 2 МБ)"@,
            Refusal::UploadFieldsMissing => "Поля sender, receiver и file обязательны"@,
            Refusal::ServerIdsMissing => "Для серверного сообщения нужны server_id и channel_id"@,
            Refusal::ServerNotFound => "Сервер не найден"@,
            Refusal::ChannelNotFound => "Канал не найден"@,
            Refusal::BadSignature => "Неверная сигнатура архива (ожидается ZALIMSSG)"@,
            Refusal::BadRequest => ""@,
            Refusal::Forbidden => ""@,
            Refusal::NotFound => ""@,
            Refusal::Internal => ""@,
        }
    }

    /// The HTTP status of the answer.
    pub fn status(&self) -> (r: u16)
        ensures
            r == self.code(),
    {
        match self {
            Refusal::TooManyAttempts { .. } => 429,
            Refusal::EmptyCredentials => 400,
            Refusal::UsernameTooLong => 400,
            Refusal::PasswordTooShort => 400,
            Refusal::UserExists => 409,
            Refusal::BadCredentials => 401,
            Refusal::InvalidToken => 401,
            Refusal::AuthenticationRequired => 401,
            Refusal::EmptyContact => 400,
            Refusal::OwnContact => 400,
            Refusal::UserNotFound => 404,
            Refusal::EmptyServerName => 400,
            Refusal::EmptyRoleName => 400,
            Refusal::EmptyChannelName => 400,
            Refusal::ChannelNameTaken => 400,
            Refusal::EmptyMemberName => 400,
            Refusal::OwnerIsMember => 400,
            Refusal::UnknownRole => 400,
            Refusal::OwnerRoleNotGiven => 400,
            Refusal::OwnerRoleFixed => 400,
            Refusal::OwnerStays => 400,
            Refusal::DataUrlMissing => 400,
            Refusal::InviteCodeMissing => 400,
            Refusal::InviteExpired => 410,
            Refusal::InviteUsedUp => 410,
            Refusal::ServerLinkMissing => 400,
            Refusal::ReactionTooLong => 400,
            Refusal::AvatarMissing => 400,
            Refusal::AvatarNotImage => 400,
            Refusal::AvatarTooLarge => 413,
            Refusal::UploadFieldsMissing => 400,
            Refusal::ServerIdsMissing => 400,
            Refusal::ServerNotFound => 404,
            Refusal::ChannelNotFound => 404,
            Refusal::BadSignature => 400,
            Refusal::BadRequest => 400,
            Refusal::Forbidden => 403,
            Refusal::NotFound => 404,
            Refusal::Internal => 500,
        }
    }

    /// The text of the answer; an empty one is not sent.
    pub fn message(&self) -> (r: String)
        ensures
            r@ == self.text(),
    {
        match self {
            Refusal::TooManyAttempts { window_secs } => throttle::too_many_attempts(*window_secs),
            Refusal::EmptyCredentials => "Логин и пароль не могут быть пустыми".to_string(),
            Refusal::UsernameTooLong => "Логин слишком длинный (максимум 64 символа)".to_string(),
            Refusal::PasswordTooShort => "Пароль должен быть не менее 6 символов".to_string(),
            Refusal::UserExists => "Пользователь уже существует".to_string(),
            Refusal::BadCredentials => "Неверный логин или пароль".to_string(),
            Refusal::InvalidToken => "Invalid or expired token".to_string(),
            Refusal::AuthenticationRequired => "Authentication required".to_string(),
            Refusal::EmptyContact => "Имя контакта не может быть пустым".to_string(),
            Refusal::OwnContact => "Нельзя добавить самого себя".to_string(),
            Refusal::UserNotFound => "Пользователь не найден".to_string(),
            Refusal::EmptyServerName => "Имя сервера не может быть пустым".to_string(),
            Refusal::EmptyRoleName => "Имя роли не может быть пустым".to_string(),
            Refusal::EmptyChannelName => "Имя канала не может быть пустым".to_string(),
            Refusal::ChannelNameTaken => "Канал с таким названием уже существует".to_string(),
            Refusal::EmptyMemberName => "Имя участника не может быть пустым".to_string(),
            Refusal::OwnerIsMember => "Владелец уже является участником сервера".to_string(),
            Refusal::UnknownRole => "Неизвестная роль".to_string(),
            Refusal::OwnerRoleNotGiven => "Нельзя назначить роль владельца".to_string(),
            Refusal::OwnerRoleFixed => "Роль владельца изменить нельзя".to_string(),
            Refusal::OwnerStays => "Владельца нельзя удалить".to_string(),
            Refusal::DataUrlMissing => "data_url обязателен".to_string(),
            Refusal::InviteCodeMissing => "Код приглашения обязателен".to_string(),
            Refusal::InviteExpired => "Срок действия инвайта истёк".to_string(),
            Refusal::InviteUsedUp => "Инвайт уже использован".to_string(),
            Refusal::ServerLinkMissing => "Ссылка сервера обязательна".to_string(),
            Refusal::ReactionTooLong => "Слишком длинная реакция".to_string(),
            Refusal::AvatarMissing => "Файл аватара обязателен".to_string(),
            Refusal::AvatarNotImage => "Аватар должен быть изображением".to_string(),
            Refusal::AvatarTooLarge => "Аватар слишком большой (макс. 2 МБ)".to_string(),
            Refusal::UploadFieldsMissing => "Поля sender, receiver и file обязательны".to_string(),
            Refusal::ServerIdsMissing => "Для серверного сообщения нужны server_id и channel_id".to_string(),
            Refusal::ServerNotFound => "Сервер не найден".to_string(),
            Refusal::ChannelNotFound => "Канал не найден".to_string(),
            Refusal::BadSignature => "Неверная сигнатура архива (ожидается ZALIMSSG)".to_string(),
            Refusal::BadRequest => "".to_string(),
            Refusal::Forbidden => "".to_string(),
            Refusal::NotFound => "".to_string(),
            Refusal::Internal => "".to_string(),
        }
    }
}

/// Every refusal is an error of the client or of the server.
pub proof fn refusals_are_errors(r: Refusal)
    ensures
        400 <= r.code() <= 500,
{
}

/// What a lookup in the store gave.
#[derive(Debug)]
pub enum Lookup<T> {
    Failed,
    Missing,
    Found(T),
}

/// What a client is answered with: 401 where it is not known who they are, 403 where they
/// may not, 404 where nothing is there, 409 where it is there already, 410 where it is over,
/// 413 where it is too large, 429 where they try too often, 500 where the server failed,
/// and 400 for any other mistake.
pub proof fn how_refusals_are_answered(refusal: &Refusal, r: u16)
    requires
        call_ensures(Refusal::status, (refusal,), r),
    ensures
        r == 401 <==> refusal is BadCredentials || refusal is InvalidToken
            || refusal is AuthenticationRequired,
        r == 403 <==> refusal is Forbidden,
        r == 404 <==> refusal is UserNotFound || refusal is ServerNotFound
            || refusal is ChannelNotFound || refusal is NotFound,
        r == 409 <==> refusal is UserExists,
        r == 410 <==> refusal is InviteExpired || refusal is InviteUsedUp,
        r == 413 <==> refusal is AvatarTooLarge,
        r == 429 <==> refusal is TooManyAttempts,
        r == 500 <==> refusal is Internal,
        r == 400 || r == 401 || r == 403 || r == 404 || r == 409 || r == 410 || r == 413 || r
            == 429 || r == 500,
{
}

/// What a client is told of a mistake of theirs.
pub proof fn what_refusals_say(refusal: &Refusal, r: String)
    requires
        call_ensures(Refusal::message, (refusal,), r),
    ensures
        refusal is EmptyCredentials ==> r@ == "Логин и пароль не могут быть пустыми"@,
        refusal is UsernameTooLong ==> r@ == "Логин слишком длинный (максимум 64 символа)"@,
        refusal is PasswordTooShort ==> r@ == "Пароль должен быть не менее 6 символов"@,
        refusal is UserExists ==> r@ == "Пользователь уже существует"@,
        refusal is BadCredentials ==> r@ == "Неверный логин или пароль"@,
        refusal is InvalidToken ==> r@ == "Invalid or expired token"@,
        refusal is AuthenticationRequired ==> r@ == "Authentication required"@,
        refusal is EmptyContact ==> r@ == "Имя контакта не может быть пустым"@,
        refusal is OwnContact ==> r@ == "Нельзя добавить самого себя"@,
        refusal is UserNotFound ==> r@ == "Пользователь не найден"@,
        refusal is EmptyServerName ==> r@ == "Имя сервера не может быть пустым"@,
        refusal is EmptyRoleName ==> r@ == "Имя роли не может быть пустым"@,
        refusal is EmptyChannelName ==> r@ == "Имя канала не может быть пустым"@,
        refusal is ChannelNameTaken ==> r@ == "Канал с таким названием уже существует"@,
        refusal is EmptyMemberName ==> r@ == "Имя участника не может быть пустым"@,
        refusal is OwnerIsMember ==> r@ == "Владелец уже является участником сервера"@,
        refusal is UnknownRole ==> r@ == "Неизвестная роль"@,
        refusal is OwnerRoleNotGiven ==> r@ == "Нельзя назначить роль владельца"@,
        refusal is OwnerRoleFixed ==> r@ == "Роль владельца изменить нельзя"@,
        refusal is OwnerStays ==> r@ == "Владельца нельзя удалить"@,
        refusal is DataUrlMissing ==> r@ == "data_url обязателен"@,
        refusal is InviteCodeMissing ==> r@ == "Код приглашения обязателен"@,
        refusal is InviteExpired ==> r@ == "Срок действия инвайта истёк"@,
        refusal is InviteUsedUp ==> r@ == "Инвайт уже использован"@,
        refusal is ServerLinkMissing ==> r@ == "Ссылка сервера обязательна"@,
        refusal is ReactionTooLong ==> r@ == "Слишком длинная реакция"@,
        refusal is AvatarMissing ==> r@ == "Файл аватара обязателен"@,
        refusal is AvatarNotImage ==> r@ == "Аватар должен быть изображением"@,
        refusal is AvatarTooLarge ==> r@ == "Аватар слишком большой (макс. 2 МБ)"@,
        refusal is UploadFieldsMissing ==> r@ == "Поля sender, receiver и file обязательны"@,
        refusal is ServerIdsMissing ==> r@ == "Для серверного сообщения нужны server_id и channel_id"@,
        refusal is ServerNotFound ==> r@ == "Сервер не найден"@,
        refusal is ChannelNotFound ==> r@ == "Канал не найден"@,
        refusal is BadSignature ==> r@ == "Неверная сигнатура архива (ожидается ZALIMSSG)"@,
{
}

/// A client whose attempts are too many is told how many seconds to wait.
pub proof fn refused_attempts_say_how_long(refusal: &Refusal, r: String)
    requires
        call_ensures(Refusal::message, (refusal,), r),
        refusal is TooManyAttempts,
    ensures
        r@ == "Слишком много попыток. Повторите через "@ + crate::text::decimal_text(
            refusal->window_secs as nat,
        ) + " секунд."@,
{
}

/// A refusal without a reason says nothing.
pub proof fn which_refusals_say_nothing(refusal: &Refusal, r: String)
    requires
        call_ensures(Refusal::message, (refusal,), r),
        refusal is BadRequest || refusal is Forbidden || refusal is NotFound || refusal is Internal,
    ensures
        r@.len() == 0,
{
    reveal_strlit("");
}

} // verus!
